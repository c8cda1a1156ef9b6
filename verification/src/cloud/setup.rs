//! Cloud backup setup: the rclone configuration, the env file, and the steps
//! of the interactive setup.

use crate::platform::command::{command, line, strs, CommandLine};
use crate::cloud::restore::{base_remote, remote_from, remote_value};
use crate::config::{env_entries, env_entry, last_value, value_of};
use crate::util::text::{
    back, begins, chars_of, contains, ends, ends_in, find_from, found_from, holds_text, is_white,
    lemma_found, occurs_at,
    join, joined, lemma_joined_is_terminated, lemma_lines_concat, lemma_lines_hold_no_feed,
    lemma_lines_of_terminated, lemma_nothing_to_trim, lemma_trim_ignores_return, lemma_upto_is,
    lines, lines_of, no_feeds, past, starts, sub_text, terminated, trim, trim_white, trimmed, views,
    without_returns, Class,
};
use vstd::prelude::*;

verus! {

/// The env file.
pub const ENV_FILE_PATH: &'static str = "/var/lib/outerclaw/config/outerclaw.env";

/// The remote that holds the encrypted data.
pub const BASE_REMOTE: &'static str = "outerclaw-base";

/// The remote that encrypts.
pub const CRYPT_REMOTE: &'static str = "outerclaw-crypt";

/// The header of the section of the remote that encrypts.
pub const CRYPT_HEADER: &'static str = "[outerclaw-crypt]";

// ── The steps ─────────────────────────────────────────────────────────

/// What came of a step of the setup.
#[derive(Debug, Clone, Copy, PartialEq, Eq, Structural)]
pub enum Event {
    /// Whether we run as root.
    Root(bool),
    /// Whether rclone is installed.
    Rclone(bool),
    /// Whether a provider was chosen.
    Chosen(bool),
    /// Whether the directory of the configuration exists now.
    ConfigDir(bool),
    /// Whether the provider was configured.
    Configured(bool),
    /// Whether a password was read, and is not empty.
    Password { read: bool, empty: bool },
    /// Whether rclone obscured it.
    Obscured(bool),
    /// Whether the section of the crypt remote was written.
    CryptWritten(bool),
    /// The hint was asked for, and the configuration secured.
    HintRead,
    /// Whether upload, download and decryption work; and whether a hint was given.
    Tested { passed: bool, hint: bool },
    /// The hint was uploaded, if it could be.
    HintUploaded,
    /// Whether the env file was updated.
    EnvUpdated(bool),
    /// The timer was enabled, if it could be.
    TimerEnabled,
}

/// What to do next.
#[derive(Debug, Clone, Copy, PartialEq, Eq, Structural)]
pub enum Action {
    CheckRoot,
    CheckRclone,
    ChooseProvider,
    MakeConfigDir,
    /// Configure the provider chosen.
    Configure,
    ReadPassword,
    Obscure,
    WriteCrypt,
    ReadHint,
    TestConnection,
    UploadHint,
    UpdateEnv,
    EnableTimer,
    Finish,
    Fail,
}

/// What follows from an event.
pub open spec fn step(e: Event) -> Action {
    match e {
        Event::Root(true) => Action::CheckRclone,
        Event::Rclone(true) => Action::ChooseProvider,
        Event::Chosen(true) => Action::MakeConfigDir,
        Event::ConfigDir(true) => Action::Configure,
        Event::Configured(true) => Action::ReadPassword,
        Event::Password { read: true, empty: false } => Action::Obscure,
        Event::Obscured(true) => Action::WriteCrypt,
        Event::CryptWritten(true) => Action::ReadHint,
        Event::HintRead => Action::TestConnection,
        Event::Tested { passed: true, hint: true } => Action::UploadHint,
        Event::Tested { passed: true, hint: false } => Action::UpdateEnv,
        Event::HintUploaded => Action::UpdateEnv,
        Event::EnvUpdated(true) => Action::EnableTimer,
        Event::TimerEnabled => Action::Finish,
        _ => Action::Fail,
    }
}

/// What to do after an event of the interactive setup, which begins with the
/// check for root.
pub fn run(e: Event) -> (r: Action)
    ensures
        r == step(e),
{
    match e {
        Event::Root(true) => Action::CheckRclone,
        Event::Rclone(true) => Action::ChooseProvider,
        Event::Chosen(true) => Action::MakeConfigDir,
        Event::ConfigDir(true) => Action::Configure,
        Event::Configured(true) => Action::ReadPassword,
        Event::Password { read: true, empty: false } => Action::Obscure,
        Event::Obscured(true) => Action::WriteCrypt,
        Event::CryptWritten(true) => Action::ReadHint,
        Event::HintRead => Action::TestConnection,
        Event::Tested { passed: true, hint: true } => Action::UploadHint,
        Event::Tested { passed: true, hint: false } => Action::UpdateEnv,
        Event::HintUploaded => Action::UpdateEnv,
        Event::EnvUpdated(true) => Action::EnableTimer,
        Event::TimerEnabled => Action::Finish,
        _ => Action::Fail,
    }
}

/// The event can come of the action.
pub open spec fn answers(a: Action, e: Event) -> bool {
    match a {
        Action::CheckRoot => e is Root,
        Action::CheckRclone => e is Rclone,
        Action::ChooseProvider => e is Chosen,
        Action::MakeConfigDir => e is ConfigDir,
        Action::Configure => e is Configured,
        Action::ReadPassword => e is Password,
        Action::Obscure => e is Obscured,
        Action::WriteCrypt => e is CryptWritten,
        Action::ReadHint => e is HintRead,
        Action::TestConnection => e is Tested,
        Action::UploadHint => e is HintUploaded,
        Action::UpdateEnv => e is EnvUpdated,
        Action::EnableTimer => e is TimerEnabled,
        Action::Finish | Action::Fail => false,
    }
}

/// The action at `i` was answered by the event at `i`.
pub open spec fn answered(run: Seq<(Action, Event)>, i: int) -> bool {
    answers(run[i].0, run[i].1)
}

/// The action at `i` follows from the event before.
pub open spec fn follows(run: Seq<(Action, Event)>, i: int) -> bool {
    run[i].0 == step(run[i - 1].1)
}

/// A run of the setup: each action with what came of it, each following from
/// the event before.
pub open spec fn is_run(run: Seq<(Action, Event)>) -> bool {
    &&& run.len() > 0 ==> run[0].0 == Action::CheckRoot
    &&& forall|i: int| 0 <= i < run.len() ==> #[trigger] answered(run, i)
    &&& forall|i: int| 0 < i < run.len() ==> #[trigger] follows(run, i)
}

/// Cloud sync is switched on only after the connection test passed: what is
/// uploaded can be downloaded and decrypted.
pub proof fn law_sync_needs_a_passed_test(run: Seq<(Action, Event)>, n: int)
    requires
        is_run(run),
        0 <= n < run.len(),
        run[n].0 == Action::UpdateEnv,
    ensures
        exists|i: int| 0 <= i < n && ((#[trigger] run[i]).1 matches Event::Tested { passed, .. } && passed),
{
    assert(n > 0);
    assert(follows(run, n) && answered(run, n - 1));
    if run[n - 1].1 is HintUploaded {
        assert(run[n - 1].0 == Action::UploadHint);
        assert(follows(run, n - 1) && answered(run, n - 2));
        assert(run[n - 2].1 matches Event::Tested { passed, .. } && passed);
    } else {
        assert(run[n - 1].1 matches Event::Tested { passed, .. } && passed);
    }
}

/// The place of an action in the setup.
pub open spec fn stage(a: Action) -> int {
    match a {
        Action::CheckRoot => 0,
        Action::CheckRclone => 1,
        Action::ChooseProvider => 2,
        Action::MakeConfigDir => 3,
        Action::Configure => 4,
        Action::ReadPassword => 5,
        Action::Obscure => 6,
        Action::WriteCrypt => 7,
        Action::ReadHint => 8,
        Action::TestConnection => 9,
        Action::UploadHint => 10,
        Action::UpdateEnv => 11,
        Action::EnableTimer => 12,
        Action::Finish => 13,
        Action::Fail => -1,
    }
}

/// The step did what it should. An empty password is none.
pub open spec fn goes_well(e: Event) -> bool {
    match e {
        Event::Root(ok) => ok,
        Event::Rclone(ok) => ok,
        Event::Chosen(ok) => ok,
        Event::ConfigDir(ok) => ok,
        Event::Configured(ok) => ok,
        Event::Password { read, empty } => read && !empty,
        Event::Obscured(ok) => ok,
        Event::CryptWritten(ok) => ok,
        Event::Tested { passed, .. } => passed,
        Event::EnvUpdated(ok) => ok,
        Event::HintRead | Event::HintUploaded | Event::TimerEnabled => true,
    }
}

/// A step that goes well leads to the next one; only the upload of a hint is
/// passed over, and only where none was given. A step that does not go well ends
/// the setup in failure.
pub proof fn law_steps_in_order(a: Action, e: Event)
    requires
        answers(a, e),
    ensures
        goes_well(e) && !(e matches Event::Tested { hint, .. } && !hint) ==> stage(step(e)) == stage(
            a,
        ) + 1,
        goes_well(e) && (e matches Event::Tested { hint, .. } && !hint) ==> step(e)
            == Action::UpdateEnv,
        step(e) == Action::Fail <==> !goes_well(e),
{
}

/// A cloud provider.
#[derive(Debug, Clone, Copy, PartialEq, Eq, Structural)]
pub enum Provider {
    CloudflareR2,
    BackblazeB2,
    AwsS3,
    /// Configured by hand, with rclone.
    Other,
    /// A remote that rclone knows already.
    Existing,
}

/// The provider at a place in the list of choices.
pub fn provider(choice: usize) -> (r: Option<Provider>)
    ensures
        r == if choice == 0 {
            Some(Provider::CloudflareR2)
        } else if choice == 1 {
            Some(Provider::BackblazeB2)
        } else if choice == 2 {
            Some(Provider::AwsS3)
        } else if choice == 3 {
            Some(Provider::Other)
        } else if choice == 4 {
            Some(Provider::Existing)
        } else {
            None
        },
{
    match choice {
        0 => Some(Provider::CloudflareR2),
        1 => Some(Provider::BackblazeB2),
        2 => Some(Provider::AwsS3),
        3 => Some(Provider::Other),
        4 => Some(Provider::Existing),
        _ => None,
    }
}

// ── The rclone configuration ──────────────────────────────────────────

/// The section of the base remote at Cloudflare R2.
pub fn setup_cloudflare_r2(account_id: &str, access_key: &str, secret_key: &str) -> (r: String)
    ensures
        r@ == "[outerclaw-base]\ntype = s3\nprovider = Cloudflare\naccess_key_id = "@ + access_key@
            + "\nsecret_access_key = "@ + secret_key@ + "\nendpoint = https://"@ + account_id@
            + ".r2.cloudflarestorage.com\nacl = private\nno_check_bucket = true\nregion = auto\n"@,
{
    let mut r = "[outerclaw-base]\ntype = s3\nprovider = Cloudflare\naccess_key_id = ".to_owned();
    r.append(access_key);
    r.append("\nsecret_access_key = ");
    r.append(secret_key);
    r.append("\nendpoint = https://");
    r.append(account_id);
    r.append(
        ".r2.cloudflarestorage.com\nacl = private\nno_check_bucket = true\nregion = auto\n",
    );
    r
}

/// The section of the base remote at Backblaze B2.
pub fn setup_backblaze_b2(key_id: &str, app_key: &str) -> (r: String)
    ensures
        r@ == "[outerclaw-base]\ntype = b2\naccount = "@ + key_id@ + "\nkey = "@ + app_key@ + "\n"@,
{
    let mut r = "[outerclaw-base]\ntype = b2\naccount = ".to_owned();
    r.append(key_id);
    r.append("\nkey = ");
    r.append(app_key);
    r.append("\n");
    r
}

/// The section of the base remote at AWS S3.
pub fn setup_aws_s3(access_key: &str, secret_key: &str, region: &str) -> (r: String)
    ensures
        r@ == "[outerclaw-base]\ntype = s3\nprovider = AWS\naccess_key_id = "@ + access_key@
            + "\nsecret_access_key = "@ + secret_key@ + "\nregion = "@ + region@
            + "\nacl = private\n"@,
{
    let mut r = "[outerclaw-base]\ntype = s3\nprovider = AWS\naccess_key_id = ".to_owned();
    r.append(access_key);
    r.append("\nsecret_access_key = ");
    r.append(secret_key);
    r.append("\nregion = ");
    r.append(region);
    r.append("\nacl = private\n");
    r
}

/// Which rclone configuration an existing remote is taken from.
#[derive(Debug, Clone, Copy, PartialEq, Eq, Structural)]
pub enum ExistingConfig {
    /// Ours, as it is.
    Ours,
    /// The user's own, of which a copy is made.
    Copy,
    /// There is none.
    Missing,
}

/// Which rclone configuration an existing remote is taken from: ours, where it
/// exists, else the user's own.
pub fn setup_existing(ours: bool, users: bool) -> (r: ExistingConfig)
    ensures
        r == if ours {
            ExistingConfig::Ours
        } else if users {
            ExistingConfig::Copy
        } else {
            ExistingConfig::Missing
        },
{
    if ours {
        ExistingConfig::Ours
    } else if users {
        ExistingConfig::Copy
    } else {
        ExistingConfig::Missing
    }
}

/// Where a user's own rclone configuration lies.
pub fn user_config_path(user: &str) -> (r: String)
    ensures
        r@ == "/home/"@ + user@ + "/.config/rclone/rclone.conf"@,
{
    let mut r = "/home/".to_owned();
    r.append(user);
    r.append("/.config/rclone/rclone.conf");
    r
}

/// The version in the output of `rclone version`: its first line.
pub fn check_rclone(output: Option<&str>) -> (r: String)
    ensures
        r@ == match output {
            Some(o) => if lines(o@).len() > 0 {
                lines(o@)[0]
            } else {
                "unknown"@
            },
            None => "unknown"@,
        },
{
    if let Some(o) = output {
        let ls = lines_of(o);
        assert(views(ls@).len() == ls@.len());
        if ls.len() > 0 {
            assert(views(ls@)[0] == ls@[0]@);
            return ls[0].clone();
        }
    }
    "unknown".to_owned()
}

/// `remote:path`.
pub fn remote_path(remote: &str, path: &str) -> (r: String)
    ensures
        r@ == remote@ + ":"@ + path@,
{
    let mut r = remote.to_owned();
    r.append(":");
    r.append(path);
    r
}

/// The obscured password in the output of `rclone obscure`; none where it is empty.
pub fn rclone_obscure(output: &str) -> (r: Option<String>)
    ensures
        match r {
            Some(p) => p@ == trim_white(output@) && p@.len() > 0,
            None => trim_white(output@).len() == 0,
        },
{
    let t = trim(output);
    if t.is_empty() {
        None
    } else {
        Some(t.to_owned())
    }
}

/// `s` with at most two line feeds at its end.
pub open spec fn two_feeds(s: Seq<char>) -> Seq<char>
    decreases s.len(),
{
    if s.len() > 0 && ends(s, "\n\n\n"@) {
        two_feeds(s.drop_last())
    } else {
        s
    }
}

/// The configuration without the section of the crypt remote: from its header
/// up to the line before the next section.
pub open spec fn without_crypt(content: Seq<char>) -> Seq<char> {
    match found_from(content, CRYPT_HEADER@, 0) {
        None => content,
        Some(start) => {
            let end = match found_from(content, "\n["@, start + 1) {
                Some(e) => e,
                None => content.len() as int,
            };
            two_feeds(content.take(start) + content.skip(end))
        },
    }
}

/// The section of the crypt remote.
pub open spec fn crypt_section(remote_path: Seq<char>, obscured_pass: Seq<char>) -> Seq<char> {
    "\n[outerclaw-crypt]\ntype = crypt\nremote = "@ + remote_path + "\npassword = "@
        + obscured_pass + "\nfilename_encryption = off\ndirectory_name_encryption = false\n"@
}

/// `s` with at most two line feeds at its end.
fn cut_feeds(s: String) -> (r: String)
    ensures
        r@ == two_feeds(s@),
{
    let v = chars_of(s.as_str());
    let mut n: usize = v.len();
    let mut text = s;
    assert(v@.take(n as int) =~= v@);
    while ends_in(text.as_str(), "\n\n\n")
        invariant
            n <= v@.len(),
            text@ == v@.take(n as int),
            two_feeds(v@) == two_feeds(text@),
        decreases n,
    {
        proof {
            reveal_strlit("\n\n\n");
            assert(n >= 3);
            assert(text@.drop_last() =~= v@.take(n - 1));
        }
        n -= 1;
        text = sub_text(&v, 0, n);
        assert(text@ =~= v@.take(n as int));
    }
    proof {
        reveal_strlit("\n\n\n");
    }
    text
}

/// Append (or replace) the crypt remote section in the rclone config.
pub fn append_crypt_section(content: &str, remote_path: &str, obscured_pass: &str) -> (r: String)
    ensures
        r@ == without_crypt(content@) + crypt_section(remote_path@, obscured_pass@),
{
    let v = chars_of(content);
    let n: usize = v.len();
    let header = chars_of(CRYPT_HEADER);
    // Remove existing crypt section if present
    let mut r = match find_from(&v, &header, 0) {
        None => content.to_owned(),
        Some(start) => {
            proof {
                reveal_strlit("[outerclaw-crypt]");
                assert(start < n);
            }
            let next = chars_of("\n[");
            let end: usize = match find_from(&v, &next, start + 1) {
                Some(e) => e,
                None => v.len(),
            };
            let mut kept = sub_text(&v, 0, start);
            let tail = sub_text(&v, end, v.len());
            kept.append(tail.as_str());
            assert(kept@ =~= content@.take(start as int) + content@.skip(end as int));
            cut_feeds(kept)
        },
    };
    let mut section = "\n[outerclaw-crypt]\ntype = crypt\nremote = ".to_owned();
    section.append(remote_path);
    section.append("\npassword = ");
    section.append(obscured_pass);
    section.append("\nfilename_encryption = off\ndirectory_name_encryption = false\n");
    r.append(section.as_str());
    r
}

// ── The env file ──────────────────────────────────────────────────────

/// The first line at or after `i` that begins with `prefix`.
pub open spec fn line_with(ls: Seq<Seq<char>>, prefix: Seq<char>, i: int) -> Option<int>
    decreases ls.len() - i,
{
    if i < 0 || i >= ls.len() {
        None
    } else if begins(ls[i], prefix) {
        Some(i)
    } else {
        line_with(ls, prefix, i + 1)
    }
}

/// The lines with `key=value` in place of the first line that sets the key, or
/// behind them.
pub open spec fn lines_set(ls: Seq<Seq<char>>, key: Seq<char>, value: Seq<char>) -> Seq<Seq<char>> {
    let l = key + "="@ + value;
    match line_with(ls, key + "="@, 0) {
        Some(i) => ls.update(i, l),
        None => ls.push(l),
    }
}

/// The lines as a text that ends in a line feed.
pub open spec fn ending_in_feed(ls: Seq<Seq<char>>) -> Seq<char> {
    let t = joined(ls, "\n"@);
    if ends(t, "\n"@) {
        t
    } else {
        t.push('\n')
    }
}

/// Set or update a KEY=VALUE in env file content. Returns the updated content.
pub fn set_env_var(content: &str, key: &str, value: &str) -> (r: String)
    ensures
        r@ == ending_in_feed(lines_set(lines(content@), key@, value@)),
{
    let mut prefix = key.to_owned();
    prefix.append("=");
    let mut l = prefix.clone();
    l.append(value);
    let mut ls = lines_of(content);
    assert(views(ls@).len() == ls@.len());
    let ghost all = lines(content@);
    let n: usize = ls.len();
    let mut i: usize = 0;
    while i < n && !starts(ls[i].as_str(), prefix.as_str())
        invariant
            views(ls@) == all,
            n == ls@.len(),
            prefix@ == key@ + "="@,
            i <= n,
            line_with(all, prefix@, 0) == line_with(all, prefix@, i as int),
        decreases n - i,
    {
        assert(views(ls@)[i as int] == ls@[i as int]@);
        i += 1;
    }
    let ghost text = l@;
    if i < n {
        assert(views(ls@)[i as int] == ls@[i as int]@);
        ls.set(i, l);
        assert(views(ls@) =~= all.update(i as int, text));
    } else {
        ls.push(l);
        assert(views(ls@) =~= all.push(text));
    }
    let mut r = join(&ls, "\n");
    if !ends_in(r.as_str(), "\n") {
        r.push('\n');
    }
    r
}

/// The heading of the cloud settings.
pub const CLOUD_COMMENT: &'static str = "# Cloud backup (configured by cloud-setup)\n";

/// The content with a bandwidth, where none is set.
pub open spec fn with_bandwidth(content: Seq<char>) -> Seq<char> {
    if holds_text(content, "CLOUD_BANDWIDTH="@) {
        content
    } else if !ends(content, "\n"@) && content.len() > 0 {
        content.push('\n') + "CLOUD_BANDWIDTH=0\n"@
    } else {
        content + "CLOUD_BANDWIDTH=0\n"@
    }
}

/// The content with a heading before the cloud settings, where it has none.
pub open spec fn with_comment(content: Seq<char>) -> Seq<char> {
    if holds_text(content, "# Cloud backup"@) {
        content
    } else {
        match found_from(content, "CLOUD_ENABLED="@, 0) {
            Some(p) => content.take(p) + CLOUD_COMMENT@ + content.skip(p),
            None => content,
        }
    }
}

/// The content of the env file with the cloud sync enabled.
pub open spec fn cloud_enabled_in(content: Seq<char>) -> Seq<char> {
    let a = ending_in_feed(lines_set(lines(content), "CLOUD_ENABLED"@, "true"@));
    let b = ending_in_feed(lines_set(lines(a), "CLOUD_REMOTE"@, CRYPT_REMOTE@));
    with_comment(with_bandwidth(b))
}

/// Update the content of outerclaw.env with CLOUD_ENABLED=true, CLOUD_REMOTE,
/// CLOUD_BANDWIDTH.
pub fn update_env_file(content: &str) -> (r: String)
    ensures
        r@ == cloud_enabled_in(content@),
{
    let a = set_env_var(content, "CLOUD_ENABLED", "true");
    let mut b = set_env_var(a.as_str(), "CLOUD_REMOTE", CRYPT_REMOTE);
    // Add CLOUD_BANDWIDTH if missing
    if !contains(b.as_str(), "CLOUD_BANDWIDTH=") {
        if !ends_in(b.as_str(), "\n") && !b.as_str().is_empty() {
            b.push('\n');
        }
        b.append("CLOUD_BANDWIDTH=0\n");
    }
    // Ensure there's a comment header if we added cloud vars for the first time
    if !contains(b.as_str(), "# Cloud backup") {
        // Insert comment before first CLOUD_ var
        let v = chars_of(b.as_str());
        if let Some(p) = find_from(&v, &chars_of("CLOUD_ENABLED="), 0) {
            let mut r = sub_text(&v, 0, p);
            r.append(CLOUD_COMMENT);
            r.append(sub_text(&v, p, v.len()).as_str());
            assert(b@.subrange(p as int, b@.len() as int) =~= b@.skip(p as int));
            assert(b@.subrange(0, p as int) =~= b@.take(p as int));
            return r;
        }
    }
    b
}

// ── The connection test and the hint ──────────────────────────────────

/// Where the test file goes.
pub const TEST_TARGET: &'static str = "outerclaw-crypt:_test/connection-test.txt";

/// The directory of the test file.
pub const TEST_DIR: &'static str = "outerclaw-crypt:_test/";

/// The content of the test file.
pub fn test_content(time: &str) -> (r: String)
    ensures
        r@ == "OuterClaw cloud test "@ + time@,
{
    let mut r = "OuterClaw cloud test ".to_owned();
    r.append(time);
    r
}

/// The commands of the connection test.
pub fn copy_command(from: &str, to: &str, config: &str) -> (r: CommandLine)
    ensures
        r@ == line("rclone"@, seq!["copyto"@, from@, to@, "--config"@, config@]),
{
    let args = vec!["copyto", from, to, "--config", config];
    assert(strs(args@) =~= seq!["copyto"@, from@, to@, "--config"@, config@]);
    command("rclone", args)
}

/// The outcome of the connection test.
#[derive(Debug, Clone, Copy, PartialEq, Eq, Structural)]
pub enum TestOutcome {
    Passed,
    /// What came back is not what was sent.
    Mismatch,
    DownloadFailed,
    UploadFailed,
}

/// Test the rclone connection: whether the upload succeeded, whether the
/// download did, and what was sent and received.
pub fn test_connection(uploaded: bool, downloaded: bool, sent: &Vec<u8>, received: &Vec<u8>) -> (r:
    TestOutcome)
    ensures
        r == if !uploaded {
            TestOutcome::UploadFailed
        } else if !downloaded {
            TestOutcome::DownloadFailed
        } else if sent@ == received@ {
            TestOutcome::Passed
        } else {
            TestOutcome::Mismatch
        },
{
    if !uploaded {
        return TestOutcome::UploadFailed;
    }
    if !downloaded {
        return TestOutcome::DownloadFailed;
    }
    if sent.len() != received.len() {
        return TestOutcome::Mismatch;
    }
    let mut i: usize = 0;
    while i < sent.len()
        invariant
            uploaded,
            downloaded,
            sent@.len() == received@.len(),
            i <= sent@.len(),
            forall|k: int| 0 <= k < i ==> sent@[k] == received@[k],
        decreases sent@.len() - i,
    {
        if sent[i] != received[i] {
            return TestOutcome::Mismatch;
        }
        i += 1;
    }
    assert(sent@ =~= received@);
    TestOutcome::Passed
}

/// The message about a connection test.
pub fn test_message(outcome: TestOutcome) -> (r: &'static str)
    ensures
        r@ == match outcome {
            TestOutcome::Passed => "  [OK] Download + decrypt test passed"@,
            TestOutcome::Mismatch => "ERROR: Decryption verification failed -- data mismatch"@,
            TestOutcome::DownloadFailed => "ERROR: Download test failed -- check credentials and permissions"@,
            TestOutcome::UploadFailed => "ERROR: Upload test failed -- check credentials, bucket name, and network"@,
        },
{
    match outcome {
        TestOutcome::Passed => "  [OK] Download + decrypt test passed",
        TestOutcome::Mismatch => "ERROR: Decryption verification failed -- data mismatch",
        TestOutcome::DownloadFailed => "ERROR: Download test failed -- check credentials and permissions",
        TestOutcome::UploadFailed => "ERROR: Upload test failed -- check credentials, bucket name, and network",
    }
}

/// What follows the hint.
pub const HINT_TAIL: &'static str = "\n\nTo restore on a new machine:\n1. Install rclone: curl -fsSL https://rclone.org/install.sh | bash\n2. Run: sudo outerclaw cloud setup\n- Choose the same provider and bucket\n- Enter the password from your hint above\n3. Run: sudo outerclaw cloud restore --list\n";

/// The text of the recovery hint (unencrypted, on the base remote).
pub fn upload_recovery_hint(time: &str, hostname: &str, hint: &str) -> (r: String)
    ensures
        r@
            == "OuterClaw Cloud Backup -- Recovery Info\n=======================================\nCreated:  "@
            + time@ + "\nHostname: "@ + hostname@ + "\n\nPassword hint: "@ + hint@ + HINT_TAIL@,
{
    let mut r = "OuterClaw Cloud Backup -- Recovery Info\n=======================================\nCreated:  ".to_owned();
    r.append(time);
    r.append("\nHostname: ");
    r.append(hostname);
    r.append("\n\nPassword hint: ");
    r.append(hint);
    r.append(HINT_TAIL);
    r
}

// ── What is written is read back ──────────────────────────────────────

/// A name that an env file can set: not empty, without equals sign or line
/// feed, no white space at its ends, and no comment.
pub open spec fn settable_key(key: Seq<char>) -> bool {
    &&& key.len() > 0
    &&& !is_white(key[0])
    &&& key[0] != '#'
    &&& !is_white(key.last())
    &&& forall|i: int| 0 <= i < key.len() ==> #[trigger] key[i] != '=' && key[i] != '\n'
}

/// A value that an env file can hold: without line feed, and without white
/// space or quotes at its ends.
pub open spec fn settable_value(v: Seq<char>) -> bool {
    &&& v.len() > 0 ==> !is_white(v[0]) && v[0] != '"' && v[0] != '\'' && !is_white(v.last())
        && v.last() != '"' && v.last() != '\''
    &&& forall|i: int| 0 <= i < v.len() ==> #[trigger] v[i] != '\n'
}

/// The line sets the key to this value.
proof fn lemma_setting_line(key: Seq<char>, value: Seq<char>)
    requires
        settable_key(key),
        settable_value(value),
    ensures
        env_entry(key + "="@ + value) == Some((key, value)),
{
    reveal_strlit("=");
    let l = key + "="@ + value;
    assert(l[0] == key[0]);
    if value.len() > 0 {
        assert(l.last() == value.last());
    } else {
        assert(l.last() == '=');
    }
    lemma_nothing_to_trim(l, Class::White);
    let n = key.len() as int;
    assert forall|j: int| 0 <= j < n implies !Class::Is('=').holds(#[trigger] l[j]) by {
        assert(l[j] == key[j]);
    }
    assert(l[n] == '=');
    lemma_upto_is(l, Class::Is('='), 0, n);
    assert(l.take(n) =~= key);
    assert(l.skip(n + 1) =~= value);
    lemma_nothing_to_trim(key, Class::White);
    if value.len() > 0 {
        lemma_nothing_to_trim(value, Class::White);
        lemma_nothing_to_trim(value, Class::Is('"'));
        lemma_nothing_to_trim(value, Class::Is('\''));
    } else {
        assert(value =~= Seq::<char>::empty());
        assert(trim_white(value) =~= value);
        assert(trimmed(value, Class::Is('"')) =~= value);
        assert(trimmed(value, Class::Is('\'')) =~= value);
    }
}

/// A line that begins with the key and an equals sign sets no other key.
proof fn lemma_prefix_sets_key(key: Seq<char>, l: Seq<char>)
    requires
        settable_key(key),
        begins(l, key + "="@),
    ensures
        env_entry(l) matches Some((k, _)) ==> k == key,
{
    reveal_strlit("=");
    let n = key.len() as int;
    let p = key + "="@;
    assert(l.subrange(0, n + 1) == p);
    assert forall|j: int| 0 <= j <= n implies #[trigger] l[j] == p[j] by {
        assert(l.subrange(0, n + 1)[j] == l[j]);
    }
    assert(past(l, Class::White, 0) == 0) by {
        assert(l[0] == key[0]);
    }
    assert(l.skip(0) =~= l);
    let e = back(l, Class::White, l.len() as int);
    lemma_back_stops(l, n, l.len() as int);
    let t = trim_white(l);
    assert(t == l.take(e));
    assert(t[0] == key[0]);
    assert forall|j: int| 0 <= j < n implies !Class::Is('=').holds(#[trigger] t[j]) by {
        assert(t[j] == l[j]);
        assert(l[j] == key[j]);
    }
    assert(t[n] == '=');
    lemma_upto_is(t, Class::Is('='), 0, n);
    assert(t.take(n) =~= key);
    lemma_nothing_to_trim(key, Class::White);
}

/// Trimming stops behind a character that is not white space.
proof fn lemma_back_stops(s: Seq<char>, n: int, j: int)
    requires
        0 <= n < j <= s.len(),
        !is_white(s[n]),
    ensures
        n < back(s, Class::White, j) <= j,
    decreases j,
{
    if is_white(s[j - 1]) {
        lemma_back_stops(s, n, j - 1);
    }
}

/// The line sets `key`.
pub open spec fn sets(l: Seq<char>, key: Seq<char>) -> bool {
    env_entry(l) matches Some((k, _)) && k == key
}

/// Entries in front do not matter to what is looked up among the first `n`.
proof fn lemma_lookup_prefix(
    e: Seq<(Seq<char>, Seq<char>)>,
    x: (Seq<char>, Seq<char>),
    key: Seq<char>,
    n: int,
)
    requires
        0 <= n <= e.len(),
    ensures
        last_value(e.push(x), key, n) == last_value(e, key, n),
    decreases n,
{
    if n > 0 {
        assert(e.push(x)[n - 1] == e[n - 1]);
        lemma_lookup_prefix(e, x, key, n - 1);
    }
}

/// What one more line does to the value of a key.
proof fn lemma_lookup_step(ls: Seq<Seq<char>>, n: int, key: Seq<char>)
    requires
        0 < n <= ls.len(),
    ensures
        sets(ls[n - 1], key) ==> value_of(env_entries(ls, n), key) == Some(
            (env_entry(ls[n - 1])->0).1,
        ),
        !sets(ls[n - 1], key) ==> value_of(env_entries(ls, n), key) == value_of(
            env_entries(ls, n - 1),
            key,
        ),
{
    let before = env_entries(ls, n - 1);
    if let Some(x) = env_entry(ls[n - 1]) {
        lemma_lookup_prefix(before, x, key, before.len() as int);
    }
}

/// Where only one line sets a key, its value is that of the key.
proof fn lemma_only_setting(ls: Seq<Seq<char>>, n: int, key: Seq<char>, value: Seq<char>, i: int)
    requires
        0 <= i < n <= ls.len(),
        env_entry(ls[i]) == Some((key, value)),
        forall|j: int| 0 <= j < ls.len() && j != i ==> !sets(#[trigger] ls[j], key),
    ensures
        value_of(env_entries(ls, n), key) == Some(value),
    decreases n,
{
    lemma_lookup_step(ls, n, key);
    if i < n - 1 {
        assert(!sets(ls[n - 1], key));
        lemma_only_setting(ls, n - 1, key, value, i);
    }
}

/// Lines that set the same keys to the same values give the same lookups.
proof fn lemma_same_lookup(a: Seq<Seq<char>>, b: Seq<Seq<char>>, n: int, key: Seq<char>)
    requires
        0 <= n <= a.len(),
        n <= b.len(),
        forall|j: int|
            0 <= j < n ==> (sets(#[trigger] a[j], key) <==> sets(b[j], key)) && (sets(a[j], key)
                ==> env_entry(a[j]) == env_entry(b[j])),
    ensures
        value_of(env_entries(a, n), key) == value_of(env_entries(b, n), key),
    decreases n,
{
    if n > 0 {
        lemma_lookup_step(a, n, key);
        lemma_lookup_step(b, n, key);
        assert(sets(a[n - 1], key) <==> sets(b[n - 1], key));
        lemma_same_lookup(a, b, n - 1, key);
    } else {
        assert(env_entries(a, 0) =~= env_entries(b, 0));
    }
}

/// A text that ends in a line feed sets what its lines set.
proof fn lemma_text_sets_the_same(ls: Seq<Seq<char>>, key: Seq<char>)
    requires
        ls.len() > 0,
        no_feeds(ls),
    ensures
        ({
            let back_again = lines(ending_in_feed(ls));
            value_of(env_entries(back_again, back_again.len() as int), key) == value_of(
                env_entries(ls, ls.len() as int),
                key,
            )
        }),
{
    reveal_strlit("\n");
    let t = joined(ls, "\n"@);
    lemma_joined_is_terminated(ls);
    let n = ls.len() as int;
    if ls.last().len() == 0 && ls.len() > 1 {
        let d = ls.drop_last();
        lemma_joined_is_terminated(d);
        assert(t =~= joined(d, "\n"@) + "\n"@);
        assert(t.subrange(t.len() - 1, t.len() as int) =~= "\n"@);
        assert(ending_in_feed(ls) == terminated(d));
        assert(no_feeds(d)) by {
            assert forall|i: int, j: int|
                0 <= i < d.len() && 0 <= j < d[i].len() implies #[trigger] d[i][j] != '\n' by {
                assert(ls[i][j] != '\n');
            }
        }
        lemma_lines_of_terminated(d);
        lemma_returns_do_not_matter(d, n - 1, key);
        assert(ls.last() =~= Seq::<char>::empty());
        assert(trim_white(ls.last()) =~= Seq::<char>::empty());
        lemma_lookup_step(ls, n, key);
        lemma_same_lookup(d, ls, n - 1, key);
    } else {
        assert(!ends(t, "\n"@)) by {
            if ends(t, "\n"@) {
                assert(t.subrange(t.len() - 1, t.len() as int)[0] == '\n');
                assert(t.last() == '\n');
                if ls.last().len() > 0 {
                    assert(t.last() == ls.last().last());
                    assert(ls[n - 1][ls[n - 1].len() - 1] != '\n');
                } else {
                    assert(t =~= ls[0]);
                }
            }
        }
        assert(ending_in_feed(ls) =~= t + "\n"@);
        lemma_lines_of_terminated(ls);
        lemma_returns_do_not_matter(ls, n, key);
    }
}

/// A final carriage return does not change what a line sets.
proof fn lemma_returns_do_not_matter(ls: Seq<Seq<char>>, n: int, key: Seq<char>)
    requires
        0 <= n <= ls.len(),
    ensures
        value_of(env_entries(without_returns(ls), n), key) == value_of(env_entries(ls, n), key),
{
    let w = without_returns(ls);
    assert forall|j: int| 0 <= j < n implies (sets(#[trigger] w[j], key) <==> sets(ls[j], key))
        && (sets(w[j], key) ==> env_entry(w[j]) == env_entry(ls[j])) by {
        lemma_trim_ignores_return(ls[j]);
    }
    lemma_same_lookup(w, ls, n, key);
}

/// The first line with a prefix has it.
proof fn lemma_line_with(ls: Seq<Seq<char>>, prefix: Seq<char>, i: int)
    requires
        0 <= i,
    ensures
        line_with(ls, prefix, i) matches Some(k) ==> i <= k < ls.len() && begins(ls[k], prefix),
    decreases ls.len() - i,
{
    if i < ls.len() && !begins(ls[i], prefix) {
        lemma_line_with(ls, prefix, i + 1);
    }
}

/// The lines of a text with a setting hold no line feeds.
proof fn lemma_set_lines_hold_no_feeds(content: Seq<char>, key: Seq<char>, value: Seq<char>)
    requires
        settable_key(key),
        settable_value(value),
    ensures
        no_feeds(lines_set(lines(content), key, value)),
        lines_set(lines(content), key, value).len() > 0,
{
    reveal_strlit("=");
    let ls = lines(content);
    let l = key + "="@ + value;
    let out = lines_set(ls, key, value);
    lemma_line_with(ls, key + "="@, 0);
    assert forall|i: int, j: int| 0 <= i < out.len() && 0 <= j < out[i].len() implies #[trigger] out[i][j]
        != '\n' by {
        if i < ls.len() && out[i] == ls[i] {
            lemma_lines_hold_no_feed(content, 0, i);
        } else {
            assert(out[i] == l);
            if j < key.len() {
                assert(l[j] == key[j]);
            } else if j > key.len() {
                assert(l[j] == value[j - key.len() - 1]);
            }
        }
    }
}

/// The place of the line that `set_env_var` writes.
pub open spec fn place_set(content: Seq<char>, key: Seq<char>) -> int {
    match line_with(lines(content), key + "="@, 0) {
        Some(i) => i,
        None => lines(content).len() as int,
    }
}

/// What `set_env_var` writes into an env file, loading it reads back: the key
/// has its new value, as long as no other line sets it too.
pub proof fn law_setting_reads_back(content: Seq<char>, key: Seq<char>, value: Seq<char>)
    requires
        settable_key(key),
        settable_value(value),
        forall|j: int|
            0 <= j < lines(content).len() && j != place_set(content, key) ==> !sets(
                #[trigger] lines(content)[j],
                key,
            ),
    ensures
        ({
            let written = lines(ending_in_feed(lines_set(lines(content), key, value)));
            value_of(env_entries(written, written.len() as int), key) == Some(value)
        }),
{
    let ls = lines(content);
    let out = lines_set(ls, key, value);
    lemma_set_lines_hold_no_feeds(content, key, value);
    lemma_text_sets_the_same(out, key);
    lemma_setting_line(key, value);
    lemma_line_with(ls, key + "="@, 0);
    let p = place_set(content, key);
    assert(out[p] == key + "="@ + value);
    assert forall|j: int| 0 <= j < out.len() && j != p implies !sets(#[trigger] out[j], key) by {
        assert(out[j] == ls[j]);
    }
    lemma_only_setting(out, out.len() as int, key, value, p);
}

/// `set_env_var` leaves every other key of an env file as it was.
pub proof fn law_setting_keeps_the_others(
    content: Seq<char>,
    key: Seq<char>,
    value: Seq<char>,
    other: Seq<char>,
)
    requires
        settable_key(key),
        settable_value(value),
        other != key,
    ensures
        ({
            let written = lines(ending_in_feed(lines_set(lines(content), key, value)));
            value_of(env_entries(written, written.len() as int), other) == value_of(
                env_entries(lines(content), lines(content).len() as int),
                other,
            )
        }),
{
    let ls = lines(content);
    let out = lines_set(ls, key, value);
    let n = ls.len() as int;
    lemma_set_lines_hold_no_feeds(content, key, value);
    lemma_text_sets_the_same(out, other);
    lemma_setting_line(key, value);
    lemma_line_with(ls, key + "="@, 0);
    match line_with(ls, key + "="@, 0) {
        Some(i) => {
            lemma_prefix_sets_key(key, ls[i]);
            lemma_same_lookup(out, ls, n, other);
        },
        None => {
            lemma_lookup_step(out, n + 1, other);
            lemma_same_lookup(out, ls, n, other);
        },
    }
}

/// A path that a section can name: not empty, without line feed, white space or
/// equals sign at its start, and without white space at its end.
pub open spec fn nameable(path: Seq<char>) -> bool {
    &&& path.len() > 0
    &&& !is_white(path[0])
    &&& path[0] != '='
    &&& !is_white(path.last())
    &&& forall|i: int| 0 <= i < path.len() ==> #[trigger] path[i] != '\n'
}

/// Up to the first header, nothing is looked at.
proof fn lemma_skip_to_header(ls: Seq<Seq<char>>, header: Seq<char>, i: int, k: int)
    requires
        0 <= i <= k <= ls.len(),
        forall|j: int| i <= j < k ==> trim_white(#[trigger] ls[j]) != header,
    ensures
        remote_from(ls, header, i, false) == remote_from(ls, header, k, false),
    decreases k - i,
{
    if i < k {
        assert(trim_white(ls[i]) != header);
        lemma_skip_to_header(ls, header, i + 1, k);
    }
}

/// The base remote that the setup writes is the one that a restore finds, as
/// long as what remains of the configuration has no other section of that name.
pub proof fn law_remote_reads_back(content: Seq<char>, path: Seq<char>, pass: Seq<char>)
    requires
        nameable(path),
        ({
            let kept = lines(without_crypt(content).push('\n'));
            forall|j: int| 0 <= j < kept.len() ==> trim_white(#[trigger] kept[j]) != CRYPT_HEADER@
        }),
    ensures
        base_remote(without_crypt(content) + crypt_section(path, pass), CRYPT_REMOTE@) == Some(
            path,
        ),
{
    reveal_strlit("\n[outerclaw-crypt]\ntype = crypt\nremote = ");
    reveal_strlit("\npassword = ");
    reveal_strlit("[outerclaw-crypt]");
    reveal_strlit("outerclaw-crypt");
    reveal_strlit("type = crypt");
    reveal_strlit("remote = ");
    reveal_strlit("remote");
    reveal_strlit("[");
    reveal_strlit("]");
    let header = "["@ + CRYPT_REMOTE@ + "]"@;
    assert(header =~= CRYPT_HEADER@);
    let a = without_crypt(content).push('\n');
    let three = seq![CRYPT_HEADER@, "type = crypt"@, "remote = "@ + path];
    let rest = "password = "@ + pass
        + "\nfilename_encryption = off\ndirectory_name_encryption = false\n"@;
    reveal_strlit("password = ");
    let b = terminated(three);
    lemma_three_terminated(three);
    let whole = without_crypt(content) + crypt_section(path, pass);
    assert(whole =~= a + (b + rest));
    lemma_lines_concat(a, b + rest, 0);
    lemma_lines_concat(b, rest, 0);
    assert(no_feeds(three)) by {
        assert forall|i: int, j: int|
            0 <= i < three.len() && 0 <= j < three[i].len() implies #[trigger] three[i][j]
            != '\n' by {
            if i == 2 && j >= 9 {
                assert(three[2][j] == path[j - 9]);
            }
        }
    }
    lemma_lines_of_terminated(three);
    let r = three[2];
    assert(r.last() == path.last());
    assert(r[0] == 'r');
    assert(without_returns(three) =~= three) by {
        assert(three[0].last() == ']');
        assert(three[1].last() == 't');
    }
    let kept = lines(a);
    let k = kept.len() as int;
    let ls = lines(whole);
    assert(ls == kept + (three + lines(rest)));
    assert(ls[k] == CRYPT_HEADER@ && ls[k + 1] == "type = crypt"@ && ls[k + 2] == r);
    assert forall|j: int| 0 <= j < k implies trim_white(#[trigger] ls[j]) != header by {
        assert(ls[j] == kept[j]);
    }
    lemma_skip_to_header(ls, header, 0, k);
    lemma_nothing_to_trim(CRYPT_HEADER@, Class::White);
    lemma_nothing_to_trim("type = crypt"@, Class::White);
    lemma_nothing_to_trim(r, Class::White);
    assert(("type = crypt"@)[0] == 't');
    assert("type = crypt"@ != header) by {
        assert(header[0] == '[');
    }
    assert(!begins("type = crypt"@, "["@)) by {
        assert(("type = crypt"@).subrange(0, 1)[0] == 't');
    }
    assert(!begins("type = crypt"@, "remote"@)) by {
        assert(("type = crypt"@).subrange(0, 6)[0] == 't');
    }
    assert(r != header) by {
        assert(header[0] == '[');
    }
    assert(!begins(r, "["@)) by {
        assert(r.subrange(0, 1)[0] == 'r');
    }
    assert(r.subrange(0, 6) =~= "remote"@);
    let v = r.skip(6);
    assert(v[0] == ' ' && v[1] == '=' && v[2] == ' ' && v[3] == path[0]);
    let c = Class::Either(' ', '=');
    assert(!c.holds(path[0])) by {
        assert(is_white(' '));
    }
    assert(past(v, c, 3) == 3);
    assert(past(v, c, 2) == 3);
    assert(past(v, c, 1) == 3);
    assert(past(v, c, 0) == 3);
    assert(v.skip(3) =~= path);
    lemma_nothing_to_trim(path, Class::White);
    assert(remote_value(r) == Some(path));
    assert(remote_from(ls, header, k + 2, true) == Some(path));
    assert(remote_from(ls, header, k + 1, true) == Some(path));
    assert(remote_from(ls, header, k, false) == Some(path));
}

/// Three terminated lines, written out.
proof fn lemma_three_terminated(ls: Seq<Seq<char>>)
    requires
        ls.len() == 3,
    ensures
        terminated(ls) == ls[0].push('\n') + ls[1].push('\n') + ls[2].push('\n'),
{
    let two = ls.drop_last();
    let one = two.drop_last();
    assert(one.drop_last() =~= Seq::<Seq<char>>::empty());
    assert(terminated(one.drop_last()) =~= Seq::<char>::empty());
    assert(terminated(one) =~= ls[0].push('\n'));
    assert(terminated(two) =~= ls[0].push('\n') + ls[1].push('\n'));
    assert(terminated(ls) =~= ls[0].push('\n') + ls[1].push('\n') + ls[2].push('\n'));
}

/// Of the rclone configuration only the crypt remote's section goes: what stands
/// before its header and from the next header on is kept, up to line feeds at
/// the end. Without the section nothing changes.
pub proof fn law_only_the_crypt_section_goes(content: Seq<char>, start: int, end: int)
    requires
        0 <= start < end <= content.len(),
        occurs_at(content, CRYPT_HEADER@, start),
        forall|j: int| 0 <= j < start ==> !occurs_at(content, CRYPT_HEADER@, j),
        end < content.len() ==> occurs_at(content, "\n["@, end),
        forall|j: int| start < j < end ==> !occurs_at(content, "\n["@, j),
        end == content.len() ==> forall|j: int| start < j ==> !occurs_at(content, "\n["@, j),
    ensures
        without_crypt(content) == two_feeds(content.take(start) + content.skip(end)),
{
    lemma_found(content, CRYPT_HEADER@, 0);
    match found_from(content, CRYPT_HEADER@, 0) {
        Some(k) => {
            assert(occurs_at(content, CRYPT_HEADER@, k));
        },
        None => {
            assert(!occurs_at(content, CRYPT_HEADER@, start));
        },
    }
    lemma_found(content, "\n["@, start + 1);
    match found_from(content, "\n["@, start + 1) {
        Some(k) => {
            assert(occurs_at(content, "\n["@, k));
        },
        None => {
            if end < content.len() {
                assert(!occurs_at(content, "\n["@, end));
            }
        },
    }
}

/// Where there is no crypt remote, the rclone configuration is kept as it is.
pub proof fn law_configuration_without_crypt_is_kept(content: Seq<char>)
    requires
        !holds_text(content, CRYPT_HEADER@),
    ensures
        without_crypt(content) == content,
{
    lemma_found(content, CRYPT_HEADER@, 0);
    if let Some(k) = found_from(content, CRYPT_HEADER@, 0) {
        assert(occurs_at(content, CRYPT_HEADER@, k));
    }
}

/// Only line feeds at the end are removed, and no more than are needed to leave
/// two.
pub proof fn law_two_feeds_are_left(s: Seq<char>)
    ensures
        two_feeds(s).len() <= s.len(),
        s.take(two_feeds(s).len() as int) == two_feeds(s),
        forall|i: int| two_feeds(s).len() <= i < s.len() ==> #[trigger] s[i] == '\n',
        !ends(two_feeds(s), "\n\n\n"@),
        !ends(s, "\n\n\n"@) ==> two_feeds(s) == s,
    decreases s.len(),
{
    reveal_strlit("\n\n\n");
    if s.len() > 0 && ends(s, "\n\n\n"@) {
        law_two_feeds_are_left(s.drop_last());
        let t = two_feeds(s);
        assert(s.subrange(s.len() - 3, s.len() as int)[2] == s.last());
        assert(s.take(t.len() as int) =~= s.drop_last().take(t.len() as int));
        assert forall|i: int| t.len() <= i < s.len() implies #[trigger] s[i] == '\n' by {
            if i < s.len() - 1 {
                assert(s.drop_last()[i] == s[i]);
            }
        }
    } else {
        assert(s.take(s.len() as int) =~= s);
    }
}

/// A bandwidth that is set is kept; where none is, the env file is kept and gets
/// the line for no limit at its end, on a line of its own.
pub proof fn law_bandwidth_is_kept(content: Seq<char>)
    ensures
        holds_text(content, "CLOUD_BANDWIDTH="@) ==> with_bandwidth(content) == content,
        !holds_text(content, "CLOUD_BANDWIDTH="@) ==> ({
            let w = with_bandwidth(content);
            &&& w.take(content.len() as int) == content
            &&& ends(w, "CLOUD_BANDWIDTH=0\n"@)
            &&& content.len() > 0 && content.last() != '\n' ==> w[content.len() as int] == '\n'
        }),
{
    reveal_strlit("\n");
    let line = "CLOUD_BANDWIDTH=0\n"@;
    if !holds_text(content, "CLOUD_BANDWIDTH="@) {
        let w = with_bandwidth(content);
        assert(w.take(content.len() as int) =~= content);
        assert(w.subrange(w.len() - line.len(), w.len() as int) =~= line);
        if content.len() > 0 && content.last() != '\n' {
            if ends(content, "\n"@) {
                assert(content.subrange(content.len() - 1, content.len() as int)[0] == content.last());
            }
        }
    }
}

} // verus!
