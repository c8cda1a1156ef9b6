//! Status report: the guardian at a glance.

use crate::daemon::state_machine::{fits, signed};
use crate::util::calendar::{
    civil, days_before_month, days_before_year, days_in_month, is_leap, lemma_months_fill_year,
    lemma_months_grow, Civil,
};
use crate::util::json::{json_tree, read_json, string_member, Json, Tree};
use crate::util::text;
use crate::util::text::{
    begins, chars_of, cut, decimal, number, parse, pieces, reach, same, split, split_once, starts,
    sub_text, trim, trim_both, trim_end, trim_white, trimmed, trimmed_end, upto, views, words,
    words_of, Class,
};
use crate::util::time_fmt::{
    ago_text, fmt_ago_at, fmt_uptime, uptime_parts, whole_secs, Timestamp,
};
use crate::vault::names::{is_main_snapshot, main_snapshot};
use vstd::prelude::*;
use vstd::utf8::encode_utf8;

verus! {

// ── ISO timestamps ────────────────────────────────────────────────────

/// The last position before `j` that holds `c`.
pub open spec fn last_at(s: Seq<char>, c: char, j: int) -> Option<int>
    decreases j,
{
    if j <= 0 || j > s.len() {
        None
    } else if s[j - 1] == c {
        Some(j - 1)
    } else {
        last_at(s, c, j - 1)
    }
}

/// The last position in `v` that holds `c`.
fn find_last(v: &Vec<char>, c: char) -> (r: Option<usize>)
    ensures
        match r {
            Some(i) => last_at(v@, c, v@.len() as int) == Some(i as int) && i < v@.len(),
            None => last_at(v@, c, v@.len() as int) is None,
        },
{
    let mut j: usize = v.len();
    while j > 0
        invariant
            j <= v@.len(),
            last_at(v@, c, v@.len() as int) == last_at(v@, c, j as int),
        decreases j,
    {
        if v[j - 1] == c {
            return Some(j - 1);
        }
        j -= 1;
    }
    None
}

/// A timestamp without its zone: a final `Z`, or what follows the last plus
/// sign or the last minus sign behind the date (beyond the tenth byte).
pub open spec fn without_zone(ts: Seq<char>) -> Seq<char> {
    let t = trimmed_end(ts, Class::Is('Z'));
    match last_at(t, '+', t.len() as int) {
        Some(p) => t.take(p),
        None => match last_at(t, '-', t.len() as int) {
            Some(p) => if encode_utf8(t.take(p)).len() > 10 {
                t.take(p)
            } else {
                t
            },
            None => t,
        },
    }
}

/// The numbers among the first `n` pieces, in order.
pub open spec fn numbers(ps: Seq<Seq<char>>, n: int) -> Seq<nat>
    decreases n,
{
    if n <= 0 {
        Seq::empty()
    } else {
        match number(ps[n - 1], u64::MAX as nat) {
            Some(x) => numbers(ps, n - 1).push(x),
            None => numbers(ps, n - 1),
        }
    }
}

/// The numbers between the occurrences of `sep`.
pub open spec fn numbers_of(s: Seq<char>, sep: char) -> Seq<nat> {
    numbers(pieces(s, sep), pieces(s, sep).len() as int)
}

/// The numbers between the occurrences of `sep`.
fn read_numbers(s: &str, sep: char) -> (r: Vec<u64>)
    ensures
        r@.len() == numbers_of(s@, sep).len(),
        forall|i: int| 0 <= i < r@.len() ==> r@[i] as nat == numbers_of(s@, sep)[i],
{
    let ps = split(s, sep);
    let mut r: Vec<u64> = Vec::new();
    let mut i: usize = 0;
    while i < ps.len()
        invariant
            views(ps@) == pieces(s@, sep),
            i <= ps@.len(),
            r@.len() == numbers(pieces(s@, sep), i as int).len(),
            forall|k: int|
                0 <= k < r@.len() ==> r@[k] as nat == numbers(pieces(s@, sep), i as int)[k],
        decreases ps@.len() - i,
    {
        assert(views(ps@)[i as int] == ps@[i as int]@);
        if let Some(x) = parse(ps[i].as_str(), u64::MAX) {
            r.push(x);
        }
        i += 1;
    }
    r
}

/// The date and the time that a timestamp writes: `DATE T TIME`, three numbers
/// each, with any fraction of the seconds left out.
pub open spec fn iso_fields(ts: Seq<char>) -> Option<Civil> {
    match cut(without_zone(ts), Class::Is('T')) {
        None => None,
        Some((date, time)) => {
            let d = numbers_of(date, '-');
            let t = numbers_of(time.take(upto(time, Class::Is('.'), 0)), ':');
            if d.len() == 3 && t.len() == 3 {
                Some(
                    Civil {
                        year: d[0] as u64,
                        month: d[1] as u64,
                        day: d[2] as u64,
                        hour: t[0] as u64,
                        minute: t[1] as u64,
                        second: t[2] as u64,
                    },
                )
            } else {
                None
            }
        },
    }
}

/// The date and the time that a timestamp writes.
pub fn parse_iso_fields(ts: &str) -> (r: Option<Civil>)
    ensures
        r == iso_fields(ts@),
{
    let t = trim_end(ts, Class::Is('Z'));
    let v = chars_of(t);
    let body = match find_last(&v, '+') {
        Some(p) => t.substring_char(0, p),
        None => match find_last(&v, '-') {
            Some(p) => {
                let head = t.substring_char(0, p);
                if head.as_bytes().len() > 10 {
                    head
                } else {
                    t
                }
            },
            None => t,
        },
    };
    assert(body@ == without_zone(ts@));
    match split_once(body, Class::Is('T')) {
        None => None,
        Some((date, time)) => {
            let d = read_numbers(date, '-');
            let tv = chars_of(time);
            let end = reach(&tv, Class::Is('.'), 0);
            let clock = sub_text(&tv, 0, end);
            let c = read_numbers(clock.as_str(), ':');
            if d.len() != 3 || c.len() != 3 {
                return None;
            }
            Some(
                Civil {
                    year: d[0],
                    month: d[1],
                    day: d[2],
                    hour: c[0],
                    minute: c[1],
                    second: c[2],
                },
            )
        },
    }
}

/// The days that a date counts from 1970-01-01, by its fields alone.
pub open spec fn field_days(c: Civil) -> int {
    days_before_year(c.year as int) + days_before_month(c.year as int, c.month as int) + (signed(
        c.day,
    ) - 1)
}

/// The seconds since the epoch that the fields of a timestamp count up to.
pub open spec fn field_seconds(c: Civil) -> int {
    field_days(c) * 86400 + signed(c.hour) * 3600 + signed(c.minute) * 60 + signed(c.second)
}

/// The month is at most the one behind December, which counts as the next
/// January, and no step of the sum leaves 64 bits.
pub open spec fn countable(c: Civil) -> bool {
    &&& c.month <= 13
    &&& fits(
        days_before_year(c.year as int) + days_before_month(c.year as int, c.month as int),
    )
    &&& fits(signed(c.day) - 1)
    &&& fits(field_days(c))
    &&& fits(field_days(c) * 86400)
    &&& fits(signed(c.hour) * 3600)
    &&& fits(field_days(c) * 86400 + signed(c.hour) * 3600)
    &&& fits(signed(c.minute) * 60)
    &&& fits(field_days(c) * 86400 + signed(c.hour) * 3600 + signed(c.minute) * 60)
    &&& fits(field_seconds(c))
}

/// A 64-bit pattern read as a number with a sign.
fn as_signed(x: u64) -> (r: i128)
    ensures
        r == signed(x),
        i64::MIN <= r <= i64::MAX,
{
    if x < 0x8000_0000_0000_0000 {
        x as i128
    } else {
        x as i128 - 0x1_0000_0000_0000_0000
    }
}

/// Whether `x` fits in 64 bits with a sign.
fn fits_i64(x: i128) -> (r: bool)
    ensures
        r == fits(x as int),
{
    -9223372036854775808 <= x && x <= 9223372036854775807
}

/// The seconds since the epoch that the fields of a timestamp count up to, or
/// `None` where they cannot be counted.
pub fn count_seconds(c: &Civil) -> (r: Option<i64>)
    ensures
        match r {
            Some(s) => countable(*c) && s == field_seconds(*c),
            None => !countable(*c),
        },
{
    if c.month > 13 {
        return None;
    }
    let mut days: i128 = 0;
    let mut y: u64 = 1970;
    while y < c.year
        invariant
            1970 <= y,
            y <= c.year || y == 1970,
            days == days_before_year(y as int),
            0 <= days <= (y - 1970) * 366,
        decreases c.year - y,
    {
        days = days + if is_leap(y) {
            366
        } else {
            365
        };
        y += 1;
    }
    assert(days == days_before_year(c.year as int));
    let ghost whole = days as int;
    let mut m: u64 = 1;
    while m < c.month
        invariant
            c.month <= 13,
            1 <= m,
            m <= c.month || m == 1,
            0 <= whole <= 0x1_0000_0000_0000_0000 * 366,
            days == whole + days_before_month(c.year as int, m as int),
            whole <= days <= whole + 31 * (m - 1),
        decreases c.month - m,
    {
        days = days + days_in_month(c.year, m) as i128;
        m += 1;
    }
    assert(days == whole + days_before_month(c.year as int, c.month as int));
    let day: i128 = as_signed(c.day) - 1;
    if !fits_i64(days) || !fits_i64(day) || !fits_i64(days + day) {
        return None;
    }
    let a: i128 = (days + day) * 86400;
    let h: i128 = as_signed(c.hour) * 3600;
    let mi: i128 = as_signed(c.minute) * 60;
    let s: i128 = as_signed(c.second);
    if !fits_i64(a) || !fits_i64(h) || !fits_i64(a + h) || !fits_i64(mi) || !fits_i64(a + h + mi)
        || !fits_i64(a + h + mi + s) {
        return None;
    }
    Some((a + h + mi + s) as i64)
}

/// The seconds since the epoch of a timestamp; 0 where it cannot be read, or its
/// fields cannot be counted.
pub open spec fn iso_seconds(ts: Seq<char>) -> int {
    match iso_fields(ts) {
        Some(c) => if countable(c) {
            field_seconds(c)
        } else {
            0
        },
        None => 0,
    }
}

/// Parse an ISO 8601 timestamp string to epoch seconds.
///
/// Handles the common format "2024-01-15T12:34:56.789Z" or with +00:00 offset.
/// Returns 0 on parse failure (non-critical, just means "unknown").
pub fn parse_iso_timestamp(ts: &str) -> (r: i64)
    ensures
        r == iso_seconds(ts@),
{
    match parse_iso_fields(ts) {
        None => 0,
        Some(c) => match count_seconds(&c) {
            Some(s) => s,
            None => 0,
        },
    }
}

// ── The gateway's last snapshot ───────────────────────────────────────

/// What the daemon's last snapshot says of the gateway.
pub struct ProcState {
    pub state: String,
    pub pid: String,
    pub timestamp: Option<String>,
}

/// The view of a `ProcState`.
pub struct ProcStateView {
    pub state: Seq<char>,
    pub pid: Seq<char>,
    pub timestamp: Option<Seq<char>>,
}

impl View for ProcState {
    type V = ProcStateView;

    open spec fn view(&self) -> ProcStateView {
        ProcStateView {
            state: self.state@,
            pid: self.pid@,
            timestamp: match self.timestamp {
                Some(t) => Some(t@),
                None => None,
            },
        }
    }
}

/// Nothing is known of the gateway.
pub open spec fn no_proc_state() -> ProcStateView {
    ProcStateView { state: "UNKNOWN"@, pid: "N/A"@, timestamp: None }
}

/// What a snapshot says of the gateway.
pub open spec fn proc_state_in(t: Tree) -> ProcStateView {
    ProcStateView {
        state: match string_member(t, "outerclaw_state"@) {
            Some(s) => s,
            None => "UNKNOWN"@,
        },
        pid: match t.member("pid"@) {
            Some(p) => trimmed(p.text, Class::Is('"')),
            None => "N/A"@,
        },
        timestamp: string_member(t, "timestamp"@),
    }
}

/// What a snapshot says of the gateway.
pub fn proc_state(data: &Json) -> (r: ProcState)
    ensures
        r@ == proc_state_in(data@),
{
    ProcState {
        state: match data.get_str("outerclaw_state") {
            Some(s) => s.to_owned(),
            None => "UNKNOWN".to_owned(),
        },
        pid: match data.get("pid") {
            Some(p) => trim_both(p.text.as_str(), Class::Is('"')).to_owned(),
            None => "N/A".to_owned(),
        },
        timestamp: match data.get_str("timestamp") {
            Some(t) => Some(t.to_owned()),
            None => None,
        },
    }
}

/// What the text of the snapshot file says of the gateway; nothing where there
/// is no such file or its text is no JSON.
pub fn read_proc_state(text: Option<&str>) -> (r: ProcState)
    ensures
        r@ == match text {
            None => no_proc_state(),
            Some(t) => match json_tree(t@) {
                Some(tree) => proc_state_in(tree),
                None => no_proc_state(),
            },
        },
{
    if let Some(t) = text {
        if let Some(data) = read_json(t) {
            return proc_state(&data);
        }
    }
    ProcState { state: "UNKNOWN".to_owned(), pid: "N/A".to_owned(), timestamp: None }
}

/// The mark in front of a state.
pub open spec fn state_icon(state: Seq<char>) -> Seq<char> {
    if state == "HEALTHY"@ {
        "[OK]"@
    } else if state == "DOWN"@ || state == "CONFIRMED_HANG"@ || state == "ZOMBIE"@ {
        "[!!]"@
    } else {
        "[??]"@
    }
}

/// The mark in front of a state.
fn icon_of(state: &str) -> (r: &'static str)
    ensures
        r@ == state_icon(state@),
{
    if same(state, "HEALTHY") {
        "[OK]"
    } else if same(state, "DOWN") || same(state, "CONFIRMED_HANG") || same(state, "ZOMBIE") {
        "[!!]"
    } else {
        "[??]"
    }
}

// ── Snapshots and identity files ──────────────────────────────────────

/// A file: its name and, where it is known, when it was last modified.
pub type Listed = (String, Option<Timestamp>);

/// How many of the first `n` files are snapshots of the main database.
pub open spec fn snapshot_count(files: Seq<Listed>, n: int) -> nat
    decreases n,
{
    if n <= 0 {
        0
    } else if main_snapshot(files[n - 1].0@) {
        snapshot_count(files, n - 1) + 1
    } else {
        snapshot_count(files, n - 1)
    }
}

/// The latest modification of a snapshot among the first `n` files; the epoch
/// where there is none.
pub open spec fn latest_time(files: Seq<Listed>, n: int) -> Timestamp
    decreases n,
{
    if n <= 0 {
        Timestamp { secs: 0, nanos: 0 }
    } else {
        let before = latest_time(files, n - 1);
        match files[n - 1].1 {
            Some(t) if main_snapshot(files[n - 1].0@) && t.since(before) > 0 => t,
            _ => before,
        }
    }
}

/// Count snapshot SQLite files and return (count, latest modification).
pub fn count_snapshots(files: &Vec<Listed>) -> (r: (usize, Timestamp))
    ensures
        r.0 == snapshot_count(files@, files@.len() as int),
        r.1 == latest_time(files@, files@.len() as int),
{
    let mut count: usize = 0;
    let mut latest = Timestamp { secs: 0, nanos: 0 };
    let mut i: usize = 0;
    while i < files.len()
        invariant
            i <= files@.len(),
            count == snapshot_count(files@, i as int),
            count <= i,
            latest == latest_time(files@, i as int),
        decreases files@.len() - i,
    {
        if is_main_snapshot(files[i].0.as_str()) {
            count += 1;
            if let Some(t) = files[i].1 {
                if t.nanos_since(&latest) > 0 {
                    latest = t;
                }
            }
        }
        i += 1;
    }
    (count, latest)
}

/// How many of the first `n` names are those of LKG states.
pub open spec fn lkg_count(names: Seq<Seq<char>>, n: int) -> nat
    decreases n,
{
    if n <= 0 {
        0
    } else if begins(names[n - 1], "lkg-"@) {
        lkg_count(names, n - 1) + 1
    } else {
        lkg_count(names, n - 1)
    }
}

/// Count LKG directories.
pub fn count_lkg(names: &Vec<String>) -> (r: usize)
    ensures
        r == lkg_count(views(names@), names@.len() as int),
{
    let mut count: usize = 0;
    let mut i: usize = 0;
    while i < names.len()
        invariant
            i <= names@.len(),
            count == lkg_count(views(names@), i as int),
            count <= i,
        decreases names@.len() - i,
    {
        assert(views(names@)[i as int] == names@[i as int]@);
        if starts(names[i].as_str(), "lkg-") {
            count += 1;
        }
        i += 1;
    }
    count
}

/// The most recently modified snapshot among the first `n` files; the first of
/// them where several share the time.
pub open spec fn latest_file(files: Seq<Listed>, n: int) -> Option<int>
    decreases n,
{
    if n <= 0 {
        None
    } else {
        let before = latest_file(files, n - 1);
        match files[n - 1].1 {
            Some(t) if main_snapshot(files[n - 1].0@) => match before {
                Some(b) => if t.since(files[b].1->0) > 0 {
                    Some(n - 1)
                } else {
                    before
                },
                None => Some(n - 1),
            },
            _ => before,
        }
    }
}

/// The most recently modified snapshot of the main database.
pub fn latest_snapshot(files: &Vec<Listed>) -> (r: Option<usize>)
    ensures
        match r {
            Some(i) => latest_file(files@, files@.len() as int) == Some(i as int) && i
                < files@.len(),
            None => latest_file(files@, files@.len() as int) is None,
        },
{
    let mut best: Option<(usize, Timestamp)> = None;
    let mut i: usize = 0;
    while i < files.len()
        invariant
            i <= files@.len(),
            match best {
                Some((b, t)) => latest_file(files@, i as int) == Some(b as int) && b < i
                    && files@[b as int].1 == Some(t),
                None => latest_file(files@, i as int) is None,
            },
        decreases files@.len() - i,
    {
        if let Some(t) = files[i].1 {
            if is_main_snapshot(files[i].0.as_str()) {
                match best {
                    Some((b, latest)) => {
                        if t.nanos_since(&latest) > 0 {
                            best = Some((i, t));
                        }
                    },
                    None => {
                        best = Some((i, t));
                    },
                }
            }
        }
        i += 1;
    }
    match best {
        Some((b, t)) => Some(b),
        None => None,
    }
}

/// What the output of `PRAGMA integrity_check` on the latest snapshot means.
pub open spec fn integrity_word(output: Option<Seq<char>>) -> Seq<char> {
    match output {
        Some(o) => if trim_white(o) == "ok"@ {
            "passed"@
        } else {
            "FAILED"@
        },
        None => "unknown"@,
    }
}

/// What the output of `PRAGMA integrity_check` on the latest snapshot means;
/// `None` where there is no snapshot or the check could not be run.
pub fn check_latest_integrity(output: Option<&str>) -> (r: &'static str)
    ensures
        r@ == integrity_word(
            match output {
                Some(o) => Some(o@),
                None => None,
            },
        ),
{
    match output {
        Some(o) => if same(trim(o), "ok") {
            "passed"
        } else {
            "FAILED"
        },
        None => "unknown",
    }
}

/// The output of `lsattr` shows the immutable flag.
pub open spec fn shows_immutable(output: Seq<char>) -> bool {
    words(output).len() > 0 && words(output)[0].contains('i')
}

/// How many of the first `n` outputs show the immutable flag.
pub open spec fn immutable_count(outputs: Seq<Option<String>>, n: int) -> nat
    decreases n,
{
    if n <= 0 {
        0
    } else {
        match outputs[n - 1] {
            Some(o) if shows_immutable(o@) => immutable_count(outputs, n - 1) + 1,
            _ => immutable_count(outputs, n - 1),
        }
    }
}

/// Whether the output of `lsattr` shows the immutable flag.
fn is_immutable(output: &str) -> (r: bool)
    ensures
        r == shows_immutable(output@),
{
    let ws = words_of(output);
    if ws.len() == 0 {
        return false;
    }
    assert(views(ws@)[0] == ws@[0]@);
    let flags = chars_of(ws[0].as_str());
    let mut i: usize = 0;
    while i < flags.len()
        invariant
            flags@ == ws@[0]@,
            ws@.len() > 0,
            views(ws@) == words(output@),
            views(ws@)[0] == ws@[0]@,
            i <= flags@.len(),
            forall|k: int| 0 <= k < i ==> flags@[k] != 'i',
        decreases flags@.len() - i,
    {
        if flags[i] == 'i' {
            assert(words(output@)[0][i as int] == 'i');
            return true;
        }
        i += 1;
    }
    false
}

/// How many identity files have the immutable flag set, and how many there
/// are. `outputs` holds, for each file that exists, what `lsattr` says of it.
pub fn check_identity_immutable(outputs: &Vec<Option<String>>) -> (r: (usize, usize))
    ensures
        r.0 == immutable_count(outputs@, outputs@.len() as int),
        r.1 == outputs@.len(),
{
    let mut immutable: usize = 0;
    let mut i: usize = 0;
    while i < outputs.len()
        invariant
            i <= outputs@.len(),
            immutable == immutable_count(outputs@, i as int),
            immutable <= i,
        decreases outputs@.len() - i,
    {
        if let Some(o) = &outputs[i] {
            if is_immutable(o.as_str()) {
                immutable += 1;
            }
        }
        i += 1;
    }
    (immutable, outputs.len())
}

// ── The report ────────────────────────────────────────────────────────

/// All that the status report tells.
pub struct StatusFacts {
    pub version: String,
    pub proc: ProcState,
    /// When the daemon last looked (seconds since the epoch); 0 where unknown.
    pub proc_ts: i64,
    pub uptime: Option<u64>,
    pub snapshots: usize,
    /// When the latest snapshot was modified; the epoch where there is none.
    pub latest_snapshot: Timestamp,
    pub lkgs: usize,
    pub integrity: String,
    pub watchdog_exists: bool,
    pub agent_exists: bool,
    pub immutable: usize,
    pub identity_total: usize,
    pub watcher_active: bool,
    pub tg_token: String,
    pub tg_chat: String,
    pub now: Timestamp,
}

/// `OK`, or another mark.
pub open spec fn mark(ok: bool, other: Seq<char>) -> Seq<char> {
    if ok {
        "OK"@
    } else {
        other
    }
}

/// `OK`, or another mark.
fn mark_of(ok: bool, other: &'static str) -> (r: &'static str)
    ensures
        r@ == mark(ok, other@),
{
    if ok {
        "OK"
    } else {
        other
    }
}

/// The line that tells when the daemon last looked.
pub open spec fn last_check_line(proc_ts: int, now: Timestamp) -> Seq<char> {
    if proc_ts > 0 {
        "  Last check    "@ + ago_text(
            whole_secs(now.since(Timestamp { secs: proc_ts as u64, nanos: 0 })),
        ) + "\n"@
    } else {
        Seq::empty()
    }
}

/// How long ago the latest backup was made.
pub open spec fn backup_age(latest: Timestamp, now: Timestamp) -> Seq<char> {
    if latest.nanoseconds() > 0 {
        ago_text(whole_secs(now.since(latest)))
    } else {
        "never"@
    }
}

/// How long the gateway has been up.
pub open spec fn uptime_text(uptime: Option<u64>) -> Seq<char> {
    match uptime {
        Some(secs) => if secs > 0 {
            crate::util::text::joined(uptime_parts(secs as int), " "@)
        } else {
            "unknown"@
        },
        None => "unknown"@,
    }
}

impl StatusFacts {
    /// The heading and the gateway.
    pub open spec fn gateway_part(self) -> Seq<char> {
        "==========================================\n     OuterClaw Guardian v"@ + self.version@
            + "\n==========================================\n\n  System        "@ + state_icon(
            self.proc.state@,
        ) + " "@ + self.proc.state@ + "\n  Gateway       PID "@ + self.proc.pid@
            + "\n  Uptime        "@ + uptime_text(self.uptime) + "\n"@ + last_check_line(
            self.proc_ts as int,
            self.now,
        )
    }

    /// The backups.
    pub open spec fn backup_part(self) -> Seq<char> {
        "\n  Data Protection\n  +-- Last backup     "@ + backup_age(
            self.latest_snapshot,
            self.now,
        ) + "\n  +-- Backup count    "@ + decimal(self.snapshots as nat)
            + "\n  +-- LKG states      "@ + decimal(self.lkgs as nat)
            + " available\n  +-- Integrity       ["@ + mark(
            self.integrity@ == "passed"@,
            "FAIL"@,
        ) + "] "@ + self.integrity@ + "\n\n"@
    }

    /// The protection against tampering.
    pub open spec fn security_part(self) -> Seq<char> {
        let isolated = self.watchdog_exists && self.agent_exists;
        let sealed = self.immutable == self.identity_total && self.identity_total > 0;
        let alerts = self.tg_token@.len() > 0 && self.tg_chat@.len() > 0;
        "  Security\n  +-- User isolation  ["@ + mark(isolated, "!!"@) + "] "@ + (if isolated {
            "3-user isolation active"@
        } else {
            "missing users"@
        }) + "\n  +-- Identity files  ["@ + mark(sealed, "!!"@) + "] "@ + decimal(
            self.immutable as nat,
        ) + "/"@ + decimal(self.identity_total as nat) + " immutable\n  +-- Config monitor  ["@
            + mark(self.watcher_active, "!!"@) + "] "@ + (if self.watcher_active {
            "file watcher active"@
        } else {
            "inactive"@
        }) + "\n  +-- Alert channel   ["@ + mark(alerts, "!!"@) + "] Telegram "@ + (if alerts {
            "connected"@
        } else {
            "not configured"@
        }) + "\n\n"@
    }
}

/// The guardian status report.
pub fn show(facts: &StatusFacts) -> (r: String)
    ensures
        r@ == facts.gateway_part() + facts.backup_part() + facts.security_part(),
{
    let mut r = gateway_text(facts);
    r.append(backup_text(facts).as_str());
    r.append(security_text(facts).as_str());
    r
}

/// The heading and the gateway.
fn gateway_text(facts: &StatusFacts) -> (r: String)
    ensures
        r@ == facts.gateway_part(),
{
    let mut r = "==========================================\n     OuterClaw Guardian v".to_owned();
    r.append(facts.version.as_str());
    r.append("\n==========================================\n\n  System        ");
    r.append(icon_of(facts.proc.state.as_str()));
    r.append(" ");
    r.append(facts.proc.state.as_str());
    r.append("\n  Gateway       PID ");
    r.append(facts.proc.pid.as_str());
    r.append("\n  Uptime        ");
    match facts.uptime {
        Some(secs) => {
            if secs > 0 {
                r.append(fmt_uptime(secs).as_str());
            } else {
                r.append("unknown");
            }
        },
        None => r.append("unknown"),
    }
    r.append("\n");
    let ghost head = r@;
    if facts.proc_ts > 0 {
        let ts = Timestamp { secs: facts.proc_ts as u64, nanos: 0 };
        let mut line = "  Last check    ".to_owned();
        line.append(fmt_ago_at(&ts, &facts.now).as_str());
        line.append("\n");
        r.append(line.as_str());
    } else {
        assert(head + Seq::<char>::empty() =~= head);
    }
    r
}

/// The backups.
fn backup_text(facts: &StatusFacts) -> (r: String)
    ensures
        r@ == facts.backup_part(),
{
    let mut r = "\n  Data Protection\n  +-- Last backup     ".to_owned();
    let epoch = Timestamp { secs: 0, nanos: 0 };
    if facts.latest_snapshot.nanos_since(&epoch) > 0 {
        r.append(fmt_ago_at(&facts.latest_snapshot, &facts.now).as_str());
    } else {
        r.append("never");
    }
    r.append("\n  +-- Backup count    ");
    r.append(text::show(facts.snapshots as u64).as_str());
    r.append("\n  +-- LKG states      ");
    r.append(text::show(facts.lkgs as u64).as_str());
    r.append(" available\n  +-- Integrity       [");
    r.append(mark_of(same(facts.integrity.as_str(), "passed"), "FAIL"));
    r.append("] ");
    r.append(facts.integrity.as_str());
    r.append("\n\n");
    r
}

/// The protection against tampering.
fn security_text(facts: &StatusFacts) -> (r: String)
    ensures
        r@ == facts.security_part(),
{
    let isolated = facts.watchdog_exists && facts.agent_exists;
    let sealed = facts.immutable == facts.identity_total && facts.identity_total > 0;
    let alerts = !facts.tg_token.as_str().is_empty() && !facts.tg_chat.as_str().is_empty();
    let mut r = "  Security\n  +-- User isolation  [".to_owned();
    r.append(mark_of(isolated, "!!"));
    r.append("] ");
    r.append(
        if isolated {
            "3-user isolation active"
        } else {
            "missing users"
        },
    );
    r.append("\n  +-- Identity files  [");
    r.append(mark_of(sealed, "!!"));
    r.append("] ");
    r.append(text::show(facts.immutable as u64).as_str());
    r.append("/");
    r.append(text::show(facts.identity_total as u64).as_str());
    r.append(" immutable\n  +-- Config monitor  [");
    r.append(mark_of(facts.watcher_active, "!!"));
    r.append("] ");
    r.append(
        if facts.watcher_active {
            "file watcher active"
        } else {
            "inactive"
        },
    );
    r.append("\n  +-- Alert channel   [");
    r.append(mark_of(alerts, "!!"));
    r.append("] Telegram ");
    r.append(
        if alerts {
            "connected"
        } else {
            "not configured"
        },
    );
    r.append("\n\n");
    r
}

// ── What is written is read back ──────────────────────────────────────

/// The last occurrence is the one that has no other behind it.
proof fn lemma_last_is(s: Seq<char>, c: char, j: int, p: int)
    requires
        0 <= p < j <= s.len(),
        s[p] == c,
        forall|i: int| p < i < j ==> #[trigger] s[i] != c,
    ensures
        last_at(s, c, j) == Some(p),
    decreases j,
{
    if j - 1 > p {
        assert(s[j - 1] != c);
        lemma_last_is(s, c, j - 1, p);
    }
}

/// A character that does not stand in a text has no last occurrence.
proof fn lemma_last_none(s: Seq<char>, c: char, j: int)
    requires
        0 <= j <= s.len(),
        forall|i: int| 0 <= i < j ==> #[trigger] s[i] != c,
    ensures
        last_at(s, c, j) is None,
    decreases j,
{
    if j > 0 {
        assert(s[j - 1] != c);
        lemma_last_none(s, c, j - 1);
    }
}

/// Three padded numbers between separators are read back.
proof fn lemma_three_numbers(x: nat, wx: nat, y: nat, z: nat, sep: char)
    requires
        x <= u64::MAX,
        y <= u64::MAX,
        z <= u64::MAX,
        !crate::util::text::is_digit(sep),
    ensures
        numbers_of(
            crate::util::text::padded(x, wx).push(sep) + crate::util::text::padded(y, 2).push(sep)
                + crate::util::text::padded(z, 2),
            sep,
        ) == seq![x, y, z],
{
    let a = crate::util::text::padded(x, wx);
    let b = crate::util::text::padded(y, 2);
    let c = crate::util::text::padded(z, 2);
    crate::util::text::lemma_padded_reads_back(x, wx, u64::MAX as nat);
    crate::util::text::lemma_padded_reads_back(y, 2, u64::MAX as nat);
    crate::util::text::lemma_padded_reads_back(z, 2, u64::MAX as nat);
    assert forall|i: int| 0 <= i < a.len() implies #[trigger] a[i] != sep by {
        assert(crate::util::text::is_digit(a[i]));
    }
    assert forall|i: int| 0 <= i < b.len() implies #[trigger] b[i] != sep by {
        assert(crate::util::text::is_digit(b[i]));
    }
    assert forall|i: int| 0 <= i < c.len() implies #[trigger] c[i] != sep by {
        assert(crate::util::text::is_digit(c[i]));
    }
    crate::util::text::lemma_three_pieces(a, b, c, sep);
    let ps = seq![a, b, c];
    assert(ps[0] == a && ps[1] == b && ps[2] == c);
    assert(numbers(ps, 0) =~= Seq::<nat>::empty());
    assert(numbers(ps, 1) =~= seq![x]);
    assert(numbers(ps, 2) =~= seq![x, y]);
    assert(numbers(ps, 3) =~= seq![x, y, z]);
}

/// A date consists of digits and dashes.
proof fn lemma_date_char(y: Seq<char>, mo: Seq<char>, d: Seq<char>, j: int)
    requires
        crate::util::text::all_digits(y),
        crate::util::text::all_digits(mo),
        crate::util::text::all_digits(d),
        0 <= j < (y.push('-') + mo.push('-') + d).len(),
    ensures
        ({
            let c = (y.push('-') + mo.push('-') + d)[j];
            crate::util::text::is_digit(c) || c == '-'
        }),
{
    let date = y.push('-') + mo.push('-') + d;
    if j < y.len() {
        assert(date[j] == y[j]);
    } else if j > y.len() && j < y.len() + 1 + mo.len() {
        assert(date[j] == mo[j - y.len() - 1]);
    } else if j > y.len() + 1 + mo.len() {
        assert(date[j] == d[j - y.len() - mo.len() - 2]);
    }
}

/// A time consists of digits and colons.
proof fn lemma_time_char(h: Seq<char>, mi: Seq<char>, s: Seq<char>, j: int)
    requires
        crate::util::text::all_digits(h),
        crate::util::text::all_digits(mi),
        crate::util::text::all_digits(s),
        0 <= j < (h.push(':') + mi.push(':') + s).len(),
    ensures
        ({
            let c = (h.push(':') + mi.push(':') + s)[j];
            crate::util::text::is_digit(c) || c == ':'
        }),
{
    let time = h.push(':') + mi.push(':') + s;
    if j < h.len() {
        assert(time[j] == h[j]);
    } else if j > h.len() && j < h.len() + 1 + mi.len() {
        assert(time[j] == mi[j - h.len() - 1]);
    } else if j > h.len() + 1 + mi.len() {
        assert(time[j] == s[j - h.len() - mi.len() - 2]);
    }
}

/// A text with a Z behind it has no other zone where it holds no plus sign and
/// its last dash stands within the first ten characters, all of them ASCII.
proof fn lemma_only_zone(t: Seq<char>, p: int)
    requires
        t.len() > 0,
        t.last() != 'Z',
        forall|i: int| 0 <= i < t.len() ==> #[trigger] t[i] != '+',
        0 <= p < t.len(),
        p <= 10,
        t[p] == '-',
        forall|i: int| p < i < t.len() ==> #[trigger] t[i] != '-',
        forall|i: int| 0 <= i < p ==> '\0' <= #[trigger] t[i] <= '\u{7f}',
    ensures
        without_zone(t.push('Z')) == t,
{
    let z = t.push('Z');
    assert(z.drop_last() =~= t);
    assert(crate::util::text::back(z, Class::Is('Z'), z.len() as int)
        == crate::util::text::back(z, Class::Is('Z'), z.len() - 1));
    assert(z[z.len() - 2] == t.last());
    assert(crate::util::text::back(z, Class::Is('Z'), z.len() - 1) == z.len() - 1);
    assert(trimmed_end(z, Class::Is('Z')) =~= t);
    lemma_last_none(t, '+', t.len() as int);
    lemma_last_is(t, '-', t.len() as int, p);
    let head = t.take(p);
    assert(vstd::utf8::is_ascii_chars(head)) by {
        assert forall|i: int| 0 <= i < head.len() implies '\0' <= #[trigger] head[i] <= '\u{7f}' by {
            assert(head[i] == t[i]);
        }
    }
    vstd::utf8::is_ascii_chars_encode_utf8(head);
    assert(encode_utf8(head).len() == p);
}

/// A padded number below a hundred has two digits.
proof fn lemma_two_digits(n: nat)
    requires
        n < 100,
    ensures
        crate::util::text::padded(n, 2).len() == 2,
{
    crate::util::text::lemma_padded_reads_back(n, 2, u64::MAX as nat);
    vstd::arithmetic::power::lemma_pow_adds(10, 1, 1);
    vstd::arithmetic::power::lemma_pow1(10);
    crate::util::text::lemma_decimal_len(n, 2);
}

/// A padded year below ten millions has at most seven digits.
proof fn lemma_seven_digits(n: nat)
    requires
        n < 10_000_000,
    ensures
        crate::util::text::padded(n, 4).len() <= 7,
{
    vstd::arithmetic::power::lemma_pow1(10);
    vstd::arithmetic::power::lemma_pow_adds(10, 1, 1);
    vstd::arithmetic::power::lemma_pow_adds(10, 2, 1);
    vstd::arithmetic::power::lemma_pow_adds(10, 3, 1);
    vstd::arithmetic::power::lemma_pow_adds(10, 4, 1);
    vstd::arithmetic::power::lemma_pow_adds(10, 5, 1);
    vstd::arithmetic::power::lemma_pow_adds(10, 6, 1);
    crate::util::text::lemma_decimal_len(n, 7);
}

/// Date and time part at the T, and are read back.
proof fn lemma_fields_of(c: Civil, t: Seq<char>)
    requires
        ({
            let y = crate::util::text::padded(c.year as nat, 4);
            let mo = crate::util::text::padded(c.month as nat, 2);
            let d = crate::util::text::padded(c.day as nat, 2);
            let h = crate::util::text::padded(c.hour as nat, 2);
            let mi = crate::util::text::padded(c.minute as nat, 2);
            let s = crate::util::text::padded(c.second as nat, 2);
            t == (y.push('-') + mo.push('-') + d).push('T') + (h.push(':') + mi.push(':') + s)
        }),
        without_zone(t.push('Z')) == t,
    ensures
        iso_fields(t.push('Z')) == Some(c),
{
    let max = u64::MAX as nat;
    let y = crate::util::text::padded(c.year as nat, 4);
    let mo = crate::util::text::padded(c.month as nat, 2);
    let d = crate::util::text::padded(c.day as nat, 2);
    let h = crate::util::text::padded(c.hour as nat, 2);
    let mi = crate::util::text::padded(c.minute as nat, 2);
    let s = crate::util::text::padded(c.second as nat, 2);
    crate::util::text::lemma_padded_reads_back(c.year as nat, 4, max);
    crate::util::text::lemma_padded_reads_back(c.month as nat, 2, max);
    crate::util::text::lemma_padded_reads_back(c.day as nat, 2, max);
    crate::util::text::lemma_padded_reads_back(c.hour as nat, 2, max);
    crate::util::text::lemma_padded_reads_back(c.minute as nat, 2, max);
    crate::util::text::lemma_padded_reads_back(c.second as nat, 2, max);
    let date = y.push('-') + mo.push('-') + d;
    let time = h.push(':') + mi.push(':') + s;
    let n = date.len() as int;
    assert forall|j: int| 0 <= j < n implies !Class::Is('T').holds(#[trigger] t[j]) by {
        assert(t[j] == date[j]);
        lemma_date_char(y, mo, d, j);
    }
    assert(t[n] == 'T');
    crate::util::text::lemma_upto_is(t, Class::Is('T'), 0, n);
    assert(t.take(n) =~= date);
    assert(t.skip(n + 1) =~= time);
    lemma_three_numbers(c.year as nat, 4, c.month as nat, c.day as nat, '-');
    assert forall|j: int| 0 <= j < time.len() implies !Class::Is('.').holds(#[trigger] time[j]) by {
        lemma_time_char(h, mi, s, j);
    }
    crate::util::text::lemma_upto_is(time, Class::Is('.'), 0, time.len() as int);
    assert(time.take(time.len() as int) =~= time);
    lemma_three_numbers(c.hour as nat, 2, c.minute as nat, c.second as nat, ':');
}

/// An ISO timestamp is its date, a T, its time and a Z.
proof fn lemma_iso_shape(c: Civil)
    ensures
        ({
            let y = crate::util::text::padded(c.year as nat, 4);
            let mo = crate::util::text::padded(c.month as nat, 2);
            let d = crate::util::text::padded(c.day as nat, 2);
            let h = crate::util::text::padded(c.hour as nat, 2);
            let mi = crate::util::text::padded(c.minute as nat, 2);
            let s = crate::util::text::padded(c.second as nat, 2);
            let date = y.push('-') + mo.push('-') + d;
            let time = h.push(':') + mi.push(':') + s;
            c.iso() == (date.push('T') + time).push('Z')
        }),
{
    reveal_strlit("-");
    reveal_strlit("T");
    reveal_strlit(":");
    reveal_strlit("Z");
    let y = crate::util::text::padded(c.year as nat, 4);
    let mo = crate::util::text::padded(c.month as nat, 2);
    let d = crate::util::text::padded(c.day as nat, 2);
    let h = crate::util::text::padded(c.hour as nat, 2);
    let mi = crate::util::text::padded(c.minute as nat, 2);
    let s = crate::util::text::padded(c.second as nat, 2);
    let date = y.push('-') + mo.push('-') + d;
    let time = h.push(':') + mi.push(':') + s;
    assert(c.iso() =~= (date.push('T') + time).push('Z'));
}

/// A date, a T and a time hold no plus sign, and their last dash stands before
/// the day.
proof fn lemma_iso_chars(
    y: Seq<char>,
    mo: Seq<char>,
    d: Seq<char>,
    h: Seq<char>,
    mi: Seq<char>,
    s: Seq<char>,
    i: int,
)
    requires
        crate::util::text::all_digits(y),
        crate::util::text::all_digits(mo),
        crate::util::text::all_digits(d),
        crate::util::text::all_digits(h),
        crate::util::text::all_digits(mi),
        crate::util::text::all_digits(s),
        0 <= i < ((y.push('-') + mo.push('-') + d).push('T') + (h.push(':') + mi.push(':')
            + s)).len(),
    ensures
        ({
            let c = ((y.push('-') + mo.push('-') + d).push('T') + (h.push(':') + mi.push(':')
                + s))[i];
            &&& c != '+'
            &&& '\0' <= c <= '\u{7f}'
            &&& i > y.len() + 1 + mo.len() ==> c != '-'
        }),
{
    let date = y.push('-') + mo.push('-') + d;
    let time = h.push(':') + mi.push(':') + s;
    let t = date.push('T') + time;
    let p = y.len() + 1 + mo.len();
    if i < date.len() {
        assert(t[i] == date[i]);
        lemma_date_char(y, mo, d, i);
        if i > p {
            assert(date[i] == d[i - p - 1]);
        }
    } else if i > date.len() {
        assert(t[i] == time[i - date.len() - 1]);
        lemma_time_char(h, mi, s, i - date.len() - 1);
    }
}

/// A date, a T and a time end before the Z.
proof fn lemma_iso_zone(
    y: Seq<char>,
    mo: Seq<char>,
    d: Seq<char>,
    h: Seq<char>,
    mi: Seq<char>,
    s: Seq<char>,
)
    requires
        crate::util::text::all_digits(y),
        crate::util::text::all_digits(mo),
        crate::util::text::all_digits(d),
        crate::util::text::all_digits(h),
        crate::util::text::all_digits(mi),
        crate::util::text::all_digits(s),
        y.len() + 1 + mo.len() <= 10,
        s.len() > 0,
    ensures
        ({
            let t = (y.push('-') + mo.push('-') + d).push('T') + (h.push(':') + mi.push(':')
                + s);
            without_zone(t.push('Z')) == t
        }),
{
    let date = y.push('-') + mo.push('-') + d;
    let time = h.push(':') + mi.push(':') + s;
    let t = date.push('T') + time;
    let p = (y.len() + 1 + mo.len()) as int;
    assert forall|i: int| 0 <= i < t.len() implies #[trigger] t[i] != '+' && '\0' <= t[i]
        <= '\u{7f}' && (i > p ==> t[i] != '-') by {
        lemma_iso_chars(y, mo, d, h, mi, s, i);
    }
    assert(t.last() == s.last());
    assert(crate::util::text::is_digit(s[s.len() - 1]));
    assert(date[p] == '-');
    assert(t[p] == date[p]);
    lemma_only_zone(t, p);
}

/// The date and the time in an ISO timestamp are read back, as long as the year
/// has at most seven digits.
pub proof fn lemma_iso_reads_back(c: Civil)
    requires
        c.valid(),
        c.year < 10_000_000,
    ensures
        iso_fields(c.iso()) == Some(c),
{
    let max = u64::MAX as nat;
    let y = crate::util::text::padded(c.year as nat, 4);
    let mo = crate::util::text::padded(c.month as nat, 2);
    let d = crate::util::text::padded(c.day as nat, 2);
    let h = crate::util::text::padded(c.hour as nat, 2);
    let mi = crate::util::text::padded(c.minute as nat, 2);
    let s = crate::util::text::padded(c.second as nat, 2);
    crate::util::text::lemma_padded_reads_back(c.year as nat, 4, max);
    crate::util::text::lemma_padded_reads_back(c.month as nat, 2, max);
    crate::util::text::lemma_padded_reads_back(c.day as nat, 2, max);
    crate::util::text::lemma_padded_reads_back(c.hour as nat, 2, max);
    crate::util::text::lemma_padded_reads_back(c.minute as nat, 2, max);
    crate::util::text::lemma_padded_reads_back(c.second as nat, 2, max);
    lemma_two_digits(c.month as nat);
    lemma_two_digits(c.second as nat);
    lemma_seven_digits(c.year as nat);
    let date = y.push('-') + mo.push('-') + d;
    let time = h.push(':') + mi.push(':') + s;
    lemma_iso_shape(c);
    lemma_iso_zone(y, mo, d, h, mi, s);
    lemma_fields_of(c, date.push('T') + time);
}

/// Small numbers are not changed by a sign.
proof fn lemma_fields_count(c: Civil)
    requires
        c.valid(),
        c.year < 10_000_000,
    ensures
        countable(c),
        field_seconds(c) == c.epoch(),
{
    crate::util::calendar::lemma_years_at_least(c.year as int);
    crate::util::calendar::lemma_day_in_year(c);
    crate::util::calendar::lemma_split_day(c);
    lemma_months_fill_year(c.year as int);
    lemma_months_grow(c.year as int, c.month as int, 13);
    if c.month > 1 {
        lemma_months_grow(c.year as int, 1, c.month as int);
    }
}

/// What the daemon writes down as the time, the status report reads back: the
/// seconds of `epoch_to_iso` are those of `parse_iso_timestamp`, as long as the
/// year has at most seven digits.
pub proof fn law_timestamp_reads_back(secs: u64)
    requires
        civil(secs as nat).year < 10_000_000,
    ensures
        iso_seconds(civil(secs as nat).iso()) == secs,
        iso_fields(civil(secs as nat).iso()) matches Some(c) && countable(c),
{
    crate::util::calendar::lemma_civil(secs);
    let c = civil(secs as nat);
    lemma_iso_reads_back(c);
    lemma_fields_count(c);
}

// ── What is counted ───────────────────────────────────────────────────

/// Of the files, those count that are finished snapshots of the main database;
/// of the LKG directory, the names that begin with `lkg-`; of the identity
/// files, those whose flags hold an `i`. Each counts once.
pub proof fn law_each_counts_once(
    files: Seq<Listed>,
    f: Listed,
    names: Seq<Seq<char>>,
    name: Seq<char>,
    outputs: Seq<Option<String>>,
    o: Option<String>,
)
    ensures
        snapshot_count(files.push(f), files.len() as int + 1) - snapshot_count(
            files,
            files.len() as int,
        ) == if begins(f.0@, "main-"@) && text::ends(f.0@, ".sqlite"@) {
            1int
        } else {
            0
        },
        lkg_count(names.push(name), names.len() as int + 1) - lkg_count(names, names.len() as int)
            == if begins(name, "lkg-"@) {
            1int
        } else {
            0
        },
        immutable_count(outputs.push(o), outputs.len() as int + 1) - immutable_count(
            outputs,
            outputs.len() as int,
        ) == if o is Some && words((o->0)@).len() > 0 && words((o->0)@)[0].contains('i') {
            1int
        } else {
            0
        },
{
    lemma_snapshot_count_in_longer(files, f, files.len() as int);
    lemma_lkg_count_in_longer(names, name, names.len() as int);
    lemma_immutable_count_in_longer(outputs, o, outputs.len() as int);
}

/// What follows does not change how many snapshots there are before.
proof fn lemma_snapshot_count_in_longer(files: Seq<Listed>, f: Listed, n: int)
    requires
        0 <= n <= files.len(),
    ensures
        snapshot_count(files.push(f), n) == snapshot_count(files, n),
    decreases n,
{
    if n > 0 {
        lemma_snapshot_count_in_longer(files, f, n - 1);
        assert(files.push(f)[n - 1] == files[n - 1]);
    }
}

/// What follows does not change how many LKG states there are before.
proof fn lemma_lkg_count_in_longer(names: Seq<Seq<char>>, name: Seq<char>, n: int)
    requires
        0 <= n <= names.len(),
    ensures
        lkg_count(names.push(name), n) == lkg_count(names, n),
    decreases n,
{
    if n > 0 {
        lemma_lkg_count_in_longer(names, name, n - 1);
        assert(names.push(name)[n - 1] == names[n - 1]);
    }
}

/// What follows does not change how many immutable files there are before.
proof fn lemma_immutable_count_in_longer(outputs: Seq<Option<String>>, o: Option<String>, n: int)
    requires
        0 <= n <= outputs.len(),
    ensures
        immutable_count(outputs.push(o), n) == immutable_count(outputs, n),
    decreases n,
{
    if n > 0 {
        lemma_immutable_count_in_longer(outputs, o, n - 1);
        assert(outputs.push(o)[n - 1] == outputs[n - 1]);
    }
}

/// The time of the latest backup is never earlier than that of a snapshot, and
/// it is the time of one, unless there is none after the epoch.
pub proof fn law_latest_backup_is_the_newest(files: Seq<Listed>, n: int, i: int)
    requires
        0 <= i < n <= files.len(),
    ensures
        main_snapshot(files[i].0@) && files[i].1 is Some ==> (files[i].1->0).nanoseconds()
            <= latest_time(files, n).nanoseconds(),
        latest_time(files, n) == (Timestamp { secs: 0, nanos: 0 }) || exists|k: int|
            0 <= k < n && main_snapshot((#[trigger] files[k]).0@) && files[k].1 == Some(
                latest_time(files, n),
            ),
    decreases n,
{
    lemma_latest_time_is_some_time(files, n);
    if n > 1 && i < n - 1 {
        law_latest_backup_is_the_newest(files, n - 1, i);
    }
}

/// The time of the latest backup is the epoch or that of a snapshot.
proof fn lemma_latest_time_is_some_time(files: Seq<Listed>, n: int)
    requires
        0 <= n <= files.len(),
    ensures
        latest_time(files, n) == (Timestamp { secs: 0, nanos: 0 }) || exists|k: int|
            0 <= k < n && main_snapshot((#[trigger] files[k]).0@) && files[k].1 == Some(
                latest_time(files, n),
            ),
    decreases n,
{
    if n > 0 {
        lemma_latest_time_is_some_time(files, n - 1);
        assert(files[n - 1] == files[n - 1]);
    }
}

/// The file whose integrity is told is the most recently modified snapshot, and
/// the first of those where several share the time. There is one exactly where a
/// snapshot with a known time is listed.
pub proof fn law_latest_file_is_the_newest(files: Seq<Listed>, n: int, i: int)
    requires
        0 <= i < n <= files.len(),
    ensures
        latest_file(files, n) matches Some(k) ==> 0 <= k < n && main_snapshot(files[k].0@)
            && files[k].1 is Some,
        main_snapshot(files[i].0@) && files[i].1 is Some ==> (latest_file(files, n) matches Some(k)
            && (files[k].1->0).since(files[i].1->0) >= 0 && (i < k ==> (files[k].1->0).since(
            files[i].1->0,
        ) > 0)),
    decreases n,
{
    reveal_with_fuel(latest_file, 2);
    if n > 1 {
        law_latest_file_is_the_newest(
            files,
            n - 1,
            if i < n - 1 {
                i
            } else {
                0
            },
        );
    }
}

/// Only the answer `ok` is a passed check; without an answer nothing is known.
pub proof fn law_only_ok_passes(output: Option<Seq<char>>)
    ensures
        integrity_word(output) == "passed"@ <==> output is Some && trim_white(output->0) == "ok"@,
        integrity_word(output) == "unknown"@ <==> output is None,
{
    reveal_strlit("passed");
    reveal_strlit("FAILED");
    reveal_strlit("unknown");
    assert("passed"@[0] == 'p' && "FAILED"@[0] == 'F' && "unknown"@[0] == 'u');
}

/// Exactly the healthy state is marked as good, and exactly the states in which
/// the gateway does not work as bad.
pub proof fn law_icons_tell_states_apart(s: crate::daemon::state_machine::State)
    ensures
        state_icon(s.label()) == "[OK]"@ <==> s is Healthy,
        state_icon(s.label()) == "[!!]"@ <==> s is Down || s is ConfirmedHang || s
            is Zombie,
{
    reveal_strlit("[OK]");
    reveal_strlit("[!!]");
    reveal_strlit("[??]");
    assert("[OK]"@[1] == 'O' && "[!!]"@[1] == '!' && "[??]"@[1] == '?');
    reveal_strlit("HEALTHY");
    reveal_strlit("DOWN");
    reveal_strlit("CONFIRMED_HANG");
    reveal_strlit("ZOMBIE");
    reveal_strlit("UNKNOWN");
    reveal_strlit("HEAVY_INFERENCE");
    reveal_strlit("POSSIBLE_HANG");
    assert("UNKNOWN"@[0] == 'U' && "HEALTHY"@[0] == 'H' && "HEALTHY"@.len() == 7);
    assert("HEAVY_INFERENCE"@.len() == 15 && "POSSIBLE_HANG"@.len() == 13
        && "CONFIRMED_HANG"@.len() == 14 && "ZOMBIE"@.len() == 6 && "DOWN"@.len() == 4
        && "UNKNOWN"@.len() == 7);
}

/// A backup that was never made is said to be so, and one that was has an age.
pub proof fn law_never_means_no_backup(latest: Timestamp, now: Timestamp)
    ensures
        latest.nanoseconds() == 0 ==> backup_age(latest, now) == "never"@,
        0 < latest.nanoseconds() <= now.nanoseconds() ==> backup_age(latest, now) == ago_text(
            (now.nanoseconds() - latest.nanoseconds()) / 1_000_000_000,
        ),
        latest.nanoseconds() >= now.nanoseconds() + 1_000_000_000 ==> backup_age(latest, now)
            == "in the future"@,
        last_check_line(0, now).len() == 0,
{
}

/// An offset from UTC at the end of a timestamp is left out.
pub proof fn law_offset_is_left_out(t: Seq<char>, offset: Seq<char>)
    requires
        offset.len() > 0,
        offset.last() != 'Z',
        forall|i: int| 0 <= i < offset.len() ==> #[trigger] offset[i] != '+',
    ensures
        without_zone(t.push('+') + offset) == t,
{
    let s = t.push('+') + offset;
    assert(s.last() == offset.last());
    assert(crate::util::text::back(s, Class::Is('Z'), s.len() as int) == s.len());
    assert(trimmed_end(s, Class::Is('Z')) =~= s);
    lemma_last_at(s, '+', s.len() as int, t.len() as int);
    assert(s.take(t.len() as int) =~= t);
}

/// The last position is the one behind which there is no other.
proof fn lemma_last_at(s: Seq<char>, c: char, j: int, p: int)
    requires
        0 <= p < j <= s.len(),
        s[p] == c,
        forall|i: int| p < i < j ==> #[trigger] s[i] != c,
    ensures
        last_at(s, c, j) == Some(p),
    decreases j,
{
    if p < j - 1 {
        assert(s[j - 1] != c);
        lemma_last_at(s, c, j - 1, p);
    }
}

/// An offset with a minus sign is left out too, where the minus sign stands
/// behind the date; the minus signs of the date itself are kept.
pub proof fn law_negative_offset_is_left_out(t: Seq<char>, offset: Seq<char>)
    requires
        offset.len() > 0,
        offset.last() != 'Z',
        forall|i: int| 0 <= i < t.len() ==> #[trigger] t[i] != '+',
        forall|i: int| 0 <= i < offset.len() ==> #[trigger] offset[i] != '+' && offset[i] != '-',
    ensures
        encode_utf8(t).len() > 10 ==> without_zone(t.push('-') + offset) == t,
        encode_utf8(t).len() <= 10 ==> without_zone(t.push('-') + offset) == t.push('-') + offset,
{
    let s = t.push('-') + offset;
    assert(s.last() == offset.last());
    assert(trimmed_end(s, Class::Is('Z')) =~= s);
    assert forall|i: int| 0 <= i < s.len() implies #[trigger] s[i] != '+' by {
        if i < t.len() {
            assert(s[i] == t[i]);
        } else if i > t.len() {
            assert(s[i] == offset[i - t.len() - 1]);
        }
    }
    lemma_none_at(s, '+', s.len() as int);
    assert forall|i: int| t.len() < i < s.len() implies #[trigger] s[i] != '-' by {
        assert(s[i] == offset[i - t.len() - 1]);
    }
    lemma_last_at(s, '-', s.len() as int, t.len() as int);
    assert(s.take(t.len() as int) =~= t);
}

/// A character that does not occur has no last position.
proof fn lemma_none_at(s: Seq<char>, c: char, j: int)
    requires
        0 <= j <= s.len(),
        forall|i: int| 0 <= i < j ==> #[trigger] s[i] != c,
    ensures
        last_at(s, c, j) is None,
    decreases j,
{
    if j > 0 {
        assert(s[j - 1] != c);
        lemma_none_at(s, c, j - 1);
    }
}

/// The report marks the integrity as good exactly where the check passed.
pub proof fn law_integrity_mark_is_earned(f: StatusFacts)
    ensures
        text::ends(
            f.backup_part(),
            (if f.integrity@ == "passed"@ {
                "OK"@
            } else {
                "FAIL"@
            }) + "] "@ + f.integrity@ + "\n\n"@,
        ),
{
    let b = f.backup_part();
    let m = mark(f.integrity@ == "passed"@, "FAIL"@);
    let p = m + "] "@ + f.integrity@ + "\n\n"@;
    let a = "\n  Data Protection\n  +-- Last backup     "@ + backup_age(f.latest_snapshot, f.now)
        + "\n  +-- Backup count    "@ + decimal(f.snapshots as nat) + "\n  +-- LKG states      "@
        + decimal(f.lkgs as nat) + " available\n  +-- Integrity       ["@;
    assert(b == a + m + "] "@ + f.integrity@ + "\n\n"@);
    assert(b.subrange(b.len() - p.len(), b.len() as int) =~= p);
}

/// The alert channel is marked as good exactly where both the token and the chat
/// are known, behind the lines on the users, the files and the monitor.
pub proof fn law_security_marks_are_earned(f: StatusFacts)
    ensures
        text::begins(f.security_part(), security_lines(f)),
        text::ends(
            f.security_part(),
            if f.tg_token@.len() > 0 && f.tg_chat@.len() > 0 {
                "OK"@ + "] Telegram "@ + "connected"@ + "\n\n"@
            } else {
                "!!"@ + "] Telegram "@ + "not configured"@ + "\n\n"@
            },
        ),
{
    let s = f.security_part();
    let alerts = f.tg_token@.len() > 0 && f.tg_chat@.len() > 0;
    let m = mark(alerts, "!!"@);
    let word = if alerts {
        "connected"@
    } else {
        "not configured"@
    };
    let a = security_lines(f) + "\n  +-- Alert channel   ["@;
    assert(s == a + m + "] Telegram "@ + word + "\n\n"@);
    assert(s.subrange(0, security_lines(f).len() as int) =~= security_lines(f));
    let p = m + "] Telegram "@ + word + "\n\n"@;
    assert(s.subrange(s.len() - p.len(), s.len() as int) =~= p);
}

/// The lines on the users, the identity files and the monitor: each is marked as
/// good exactly where both users exist, where there are identity files and all
/// of them are immutable, and where the watcher is active.
pub open spec fn security_lines(f: StatusFacts) -> Seq<char> {
    "  Security\n  +-- User isolation  ["@ + (if f.watchdog_exists && f.agent_exists {
        "OK"@
    } else {
        "!!"@
    }) + "] "@ + (if f.watchdog_exists && f.agent_exists {
        "3-user isolation active"@
    } else {
        "missing users"@
    }) + "\n  +-- Identity files  ["@ + (if f.identity_total > 0 && f.immutable
        == f.identity_total {
        "OK"@
    } else {
        "!!"@
    }) + "] "@ + decimal(f.immutable as nat) + "/"@ + decimal(f.identity_total as nat)
        + " immutable\n  +-- Config monitor  ["@ + (if f.watcher_active {
        "OK"@
    } else {
        "!!"@
    }) + "] "@ + (if f.watcher_active {
        "file watcher active"@
    } else {
        "inactive"@
    })
}

} // verus!
