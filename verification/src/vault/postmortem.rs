//! Post-mortem forensic data collector: what is collected when a service
//! crashes, and how the collected files read.

use crate::platform::command::{command, line, owned, strs, CommandLine};
use crate::util::json::{json_tree, read_json, Json, Kind, Tree, TreeKind};
use crate::util::order::{before, comes_before, in_order, sort_ascending};
use crate::util::path::{join_path, joined_path};
use crate::util::text::{
    align, aligned, alphanumeric, any_in, begins, chars_of, cut, decimal, grep, grepped, contains, has_any,
    holds_text, is_alphanumeric, join, joined, last_lines, lines, lines_of, lowercase, number, parse,
    same, show, split_once, starts, tail_lines, terminate, terminated, to_lower, to_upper, trim,
    trim_white, uppercase, views, Class,
};
use crate::vault::retention::{directories, dirs_named, expired, meant, prune, Entry};
use vstd::prelude::*;

verus! {

/// Maximum number of postmortem directories to retain.
pub const MAX_POSTMORTEMS: usize = 20;

// ── Units ─────────────────────────────────────────────────────────────

/// A non-empty run of letters, digits, `.`, `-` and `_`.
pub open spec fn is_unit_name(s: Seq<char>) -> bool {
    s.len() > 0 && forall|i: int|
        0 <= i < s.len() ==> is_alphanumeric(#[trigger] s[i]) || s[i] == '.' || s[i] == '-' || s[i]
            == '_'
}

/// Validate that a unit name contains only safe characters.
pub fn is_valid_unit_name(name: &str) -> (r: bool)
    ensures
        r == is_unit_name(name@),
{
    let v = chars_of(name);
    let mut i: usize = 0;
    while i < v.len()
        invariant
            v@ == name@,
            i <= v@.len(),
            forall|k: int|
                0 <= k < i ==> is_alphanumeric(#[trigger] name@[k]) || name@[k] == '.' || name@[k]
                    == '-' || name@[k] == '_',
        decreases v@.len() - i,
    {
        let c = v[i];
        if !(alphanumeric(c) || c == '.' || c == '-' || c == '_') {
            assert(name@[i as int] == c);
            return false;
        }
        i += 1;
    }
    v.len() > 0
}

/// The directory for a postmortem of `unit` at the time `ts`; `None` where the
/// name of the unit is not safe.
pub fn run(vault_dir: &str, ts: &str, unit: &str) -> (r: Option<String>)
    ensures
        match r {
            Some(dir) => is_unit_name(unit@) && dir@ == joined_path(
                joined_path(vault_dir@, "postmortem"@),
                ts@ + "-"@ + unit@,
            ),
            None => !is_unit_name(unit@),
        },
{
    if !is_valid_unit_name(unit) {
        return None;
    }
    let mut name = ts.to_owned();
    name.append("-");
    name.append(unit);
    Some(join_path(join_path(vault_dir, "postmortem").as_str(), name.as_str()))
}

/// What is said of a collection that could not start: the name of the unit is
/// not safe, or its directory could not be made, for the reason `error`.
pub open spec fn complaint(unit: Seq<char>, error: Option<Seq<char>>) -> Option<Seq<char>> {
    if !is_unit_name(unit) {
        Some("FATAL: Invalid unit name: '"@ + unit + "'"@)
    } else {
        match error {
            Some(e) => Some("Cannot create postmortem dir: "@ + e),
            None => None,
        }
    }
}

/// The exit code of a collection, and what is said where it could not start. A
/// postmortem is best effort: the code is always 0.
pub fn outcome(unit: &str, error: Option<&str>) -> (r: (i32, Option<String>))
    ensures
        r.0 == 0,
        match r.1 {
            Some(m) => complaint(
                unit@,
                match error {
                    Some(e) => Some(e@),
                    None => None,
                },
            ) == Some(m@),
            None => is_unit_name(unit@) && error is None,
        },
{
    if !is_valid_unit_name(unit) {
        let mut m = "FATAL: Invalid unit name: '".to_owned();
        m.append(unit);
        m.append("'");
        return (0, Some(m));
    }
    match error {
        Some(e) => {
            let mut m = "Cannot create postmortem dir: ".to_owned();
            m.append(e);
            (0, Some(m))
        },
        None => (0, None),
    }
}

/// The properties of a service that are collected.
pub open spec fn properties() -> Seq<Seq<char>> {
    seq![
        "ExecMainPID"@,
        "ExecMainStatus"@,
        "Result"@,
        "ActiveState"@,
        "SubState"@,
        "NRestarts"@,
        "MemoryCurrent"@,
        "MemoryPeak"@,
        "CPUUsageNSec"@,
        "TasksCurrent"@,
        "ExecMainStartTimestamp"@,
        "ExecMainExitTimestamp"@,
        "StatusText"@,
        "InvocationID"@,
    ]
}

/// The properties of a service that are collected.
pub fn collected_properties() -> (r: Vec<String>)
    ensures
        views(r@) == properties(),
{
    let v = vec![
        "ExecMainPID",
        "ExecMainStatus",
        "Result",
        "ActiveState",
        "SubState",
        "NRestarts",
        "MemoryCurrent",
        "MemoryPeak",
        "CPUUsageNSec",
        "TasksCurrent",
        "ExecMainStartTimestamp",
        "ExecMainExitTimestamp",
        "StatusText",
        "InvocationID",
    ];
    assert(strs(v@) =~= properties());
    owned(v)
}

/// The command that shows multiple properties of a service.
pub fn systemctl_show_properties(service: &str, props: &Vec<String>) -> (r: CommandLine)
    ensures
        r@ == line(
            "systemctl"@,
            seq!["show"@, service@, "--property="@ + joined(views(props@), ","@)],
        ),
{
    let mut p = "--property=".to_owned();
    p.append(join(props, ",").as_str());
    let args = vec!["show", service, p.as_str()];
    assert(strs(args@) =~= seq![
        "show"@,
        service@,
        "--property="@ + joined(views(props@), ","@),
    ]);
    command("systemctl", args)
}

/// The command that prints the journal of a service: the last 200 lines, or the
/// last 50 errors.
pub fn journal_command(service: &str, errors: bool) -> (r: CommandLine)
    ensures
        r@ == line(
            "journalctl"@,
            if errors {
                seq![
                    "-u"@,
                    service@,
                    "-n"@,
                    "50"@,
                    "--no-pager"@,
                    "-p"@,
                    "err"@,
                    "--output=short-iso"@,
                ]
            } else {
                seq!["-u"@, service@, "-n"@, "200"@, "--no-pager"@, "--output=short-iso"@]
            },
        ),
{
    if errors {
        let args = vec![
            "-u",
            service,
            "-n",
            "50",
            "--no-pager",
            "-p",
            "err",
            "--output=short-iso",
        ];
        assert(strs(args@) =~= seq![
            "-u"@,
            service@,
            "-n"@,
            "50"@,
            "--no-pager"@,
            "-p"@,
            "err"@,
            "--output=short-iso"@,
        ]);
        command("journalctl", args)
    } else {
        let args = vec!["-u", service, "-n", "200", "--no-pager", "--output=short-iso"];
        assert(strs(args@) =~= seq![
            "-u"@,
            service@,
            "-n"@,
            "200"@,
            "--no-pager"@,
            "--output=short-iso"@,
        ]);
        command("journalctl", args)
    }
}

/// The main process, from the output of `systemctl show`; none where it is 0
/// or no number.
pub fn get_main_pid(output: &str) -> (r: Option<u32>)
    ensures
        match number(trim_white(output@), u32::MAX as nat) {
            Some(n) => if n == 0 {
                r is None
            } else {
                r == Some(n as u32)
            },
            None => r is None,
        },
{
    match parse(trim(output), 4294967295) {
        Some(n) => if n == 0 {
            None
        } else {
            Some(n as u32)
        },
        None => None,
    }
}

/// The alert about a postmortem that was collected.
pub fn collected_alert(unit: &str, pid: Option<u32>, dir: &str) -> (r: String)
    ensures
        r@ == "Post-mortem collected for "@ + unit@ + " (PID "@ + decimal(
            match pid {
                Some(p) => p as nat,
                None => 0,
            },
        ) + "). Path: "@ + dir@,
{
    let mut r = "Post-mortem collected for ".to_owned();
    r.append(unit);
    r.append(" (PID ");
    r.append(
        show(
            match pid {
                Some(p) => p as u64,
                None => 0,
            },
        ).as_str(),
    );
    r.append("). Path: ");
    r.append(dir);
    r
}

/// The postmortem directories to remove: all but the newest `MAX_POSTMORTEMS`.
pub fn prune_postmortems(entries: &Vec<Entry>) -> (r: Vec<String>)
    ensures
        expired(meant(entries@, dirs_named(Seq::empty())), MAX_POSTMORTEMS as nat, views(r@)),
{
    proof {
        reveal_strlit("");
        assert(""@ =~= Seq::<char>::empty());
    }
    prune(entries, &directories(""), MAX_POSTMORTEMS)
}

// ── Secrets ───────────────────────────────────────────────────────────

/// Secret-bearing environment variable name patterns.
pub open spec fn secret_patterns() -> Seq<Seq<char>> {
    seq![
        "TOKEN"@,
        "KEY"@,
        "SECRET"@,
        "PASSWORD"@,
        "APIKEY"@,
        "API_KEY"@,
        "CREDENTIAL"@,
        "PRIVATE"@,
        "AUTH"@,
        "JWT"@,
        "DSN"@,
        "_URL"@,
        "COOKIE"@,
        "SESSION"@,
    ]
}

/// Whether a variable's name, in upper case, contains a secret pattern.
pub fn is_secret(upper: &str) -> (r: bool)
    ensures
        r == any_in(upper@, secret_patterns()),
{
    let v = vec![
        "TOKEN",
        "KEY",
        "SECRET",
        "PASSWORD",
        "APIKEY",
        "API_KEY",
        "CREDENTIAL",
        "PRIVATE",
        "AUTH",
        "JWT",
        "DSN",
        "_URL",
        "COOKIE",
        "SESSION",
    ];
    assert(strs(v@) =~= secret_patterns());
    has_any(upper, &owned(v))
}

/// A line with the value of a secret variable replaced.
pub open spec fn redacted_line(l: Seq<char>) -> Seq<char> {
    match cut(l, Class::Is('=')) {
        Some((key, _)) => if any_in(uppercase(key), secret_patterns()) {
            key + "=<REDACTED>"@
        } else {
            l
        },
        None => l,
    }
}

/// The lines of a text, with the values of secret variables replaced.
pub open spec fn redacted_lines(text: Seq<char>) -> Seq<Seq<char>> {
    Seq::new(lines(text).len(), |i: int| redacted_line(lines(text)[i]))
}

/// Redact secret values from environment text.
///
/// For lines matching `KEY=VALUE` where KEY contains a secret pattern,
/// replaces VALUE with `<REDACTED>`.
pub fn redact_secrets(text: &str) -> (r: String)
    ensures
        r@ == terminated(redacted_lines(text@)),
{
    let ls = lines_of(text);
    assert(views(ls@).len() == ls@.len());
    let mut out: Vec<String> = Vec::new();
    let mut i: usize = 0;
    while i < ls.len()
        invariant
            views(ls@) == lines(text@),
            views(ls@).len() == ls@.len(),
            i <= ls@.len(),
            out@.len() == i,
            forall|k: int| 0 <= k < i ==> (#[trigger] out@[k])@ == redacted_line(lines(text@)[k]),
        decreases ls@.len() - i,
    {
        assert(views(ls@)[i as int] == ls@[i as int]@);
        let l = ls[i].as_str();
        let mut shown = l.to_owned();
        if let Some((key, value)) = split_once(l, Class::Is('=')) {
            let upper = to_upper(key);
            if is_secret(upper.as_str()) {
                shown = key.to_owned();
                shown.append("=<REDACTED>");
            }
        }
        out.push(shown);
        i += 1;
    }
    assert(views(out@) =~= redacted_lines(text@));
    terminate(&out)
}

/// A secret's value is gone: whatever it was, the redacted line is the same.
pub proof fn law_redaction_hides_the_value(key: Seq<char>, value: Seq<char>, other: Seq<char>)
    requires
        forall|i: int| 0 <= i < key.len() ==> #[trigger] key[i] != '=',
        any_in(uppercase(key), secret_patterns()),
    ensures
        redacted_line(key.push('=') + value) == key + "=<REDACTED>"@,
        redacted_line(key.push('=') + value) == redacted_line(key.push('=') + other),
{
    lemma_key_of(key, value);
    lemma_key_of(key, other);
}

/// The name of a variable is what stands before the first equals sign.
proof fn lemma_key_of(key: Seq<char>, value: Seq<char>)
    requires
        forall|i: int| 0 <= i < key.len() ==> #[trigger] key[i] != '=',
    ensures
        cut(key.push('=') + value, Class::Is('=')) == Some((key, value)),
{
    let l = key.push('=') + value;
    assert forall|j: int| 0 <= j < key.len() implies !Class::Is('=').holds(#[trigger] l[j]) by {
        assert(l[j] == key[j]);
    }
    assert(l[key.len() as int] == '=');
    crate::util::text::lemma_upto_is(l, Class::Is('='), 0, key.len() as int);
    assert(l.take(key.len() as int) =~= key);
    assert(l.skip(key.len() as int + 1) =~= value);
}

// ── /proc data of a living process ────────────────────────────────────

/// Bytes as characters of the same number, with `nul` for the NULs.
pub open spec fn bytes_text(b: Seq<u8>, nul: char) -> Seq<char> {
    Seq::new(
        b.len(),
        |i: int|
            if b[i] == 0 {
                nul
            } else {
                b[i] as char
            },
    )
}

/// Bytes as characters of the same number, with `nul` for the NULs.
fn text_of_bytes(b: &Vec<u8>, nul: char) -> (r: String)
    ensures
        r@ == bytes_text(b@, nul),
{
    let mut r = String::new();
    let mut i: usize = 0;
    while i < b.len()
        invariant
            i <= b@.len(),
            r@ =~= bytes_text(b@, nul).take(i as int),
        decreases b@.len() - i,
    {
        let c = if b[i] == 0 {
            nul
        } else {
            b[i] as char
        };
        r.push(c);
        i += 1;
    }
    assert(bytes_text(b@, nul).take(i as int) =~= bytes_text(b@, nul));
    r
}

/// The text of `08-proc-cmdline.txt`: the NUL-separated command line with spaces.
pub fn cmdline_text(raw: &Vec<u8>) -> (r: String)
    ensures
        r@ == bytes_text(raw@, ' '),
{
    text_of_bytes(raw, ' ')
}

/// The text of `09-proc-environ.txt`: the NUL-separated environment in lines,
/// with secrets redacted.
pub fn environ_text(raw: &Vec<u8>) -> (r: String)
    ensures
        r@ == terminated(redacted_lines(bytes_text(raw@, '\n'))),
{
    redact_secrets(text_of_bytes(raw, '\n').as_str())
}

/// An open file: the path of its descriptor, and where it leads.
pub type Descriptor = (String, Option<String>);

/// Where a descriptor leads, or a question mark.
pub open spec fn target_of(d: Descriptor) -> Seq<char> {
    match d.1 {
        Some(t) => t@,
        None => "?"@,
    }
}

/// The targets of descriptors.
pub open spec fn targets_of(ds: Seq<Descriptor>) -> Seq<Seq<char>> {
    Seq::new(ds.len(), |i: int| target_of(ds[i]))
}

/// The lines on descriptors.
pub open spec fn descriptor_lines(ds: Seq<Descriptor>) -> Seq<Seq<char>> {
    Seq::new(ds.len(), |i: int| ds[i].0@ + " -> "@ + target_of(ds[i]))
}

/// How often `x` stands among the first `n`.
pub open spec fn occurrences(ts: Seq<Seq<char>>, x: Seq<char>, n: int) -> nat
    decreases n,
{
    if n <= 0 {
        0
    } else if ts[n - 1] == x {
        occurrences(ts, x, n - 1) + 1
    } else {
        occurrences(ts, x, n - 1)
    }
}

/// A target, and how many descriptors lead there.
pub type Tally = (u64, String);

/// The first tally stands ahead of the second: its count is larger, or the
/// counts are the same and its target comes before the other.
pub open spec fn ahead(a: Tally, b: Tally) -> bool {
    a.0 > b.0 || (a.0 == b.0 && before(a.1@, b.1@))
}

/// One of the tallies is that of `x`.
pub open spec fn tallied(tallies: Seq<Tally>, x: Seq<char>) -> bool {
    exists|i: int| 0 <= i < tallies.len() && (#[trigger] tallies[i]).1@ == x
}

/// The tally has the right number.
pub open spec fn exact(ts: Seq<Seq<char>>, t: Tally, n: int) -> bool {
    t.0 > 0 && t.0 == occurrences(ts, t.1@, n)
}

/// The tallies count the targets: each once, with its number, the most frequent
/// first.
pub open spec fn counts(ts: Seq<Seq<char>>, tallies: Seq<Tally>) -> bool {
    &&& forall|i: int| 0 <= i < tallies.len() ==> #[trigger] exact(ts, tallies[i], ts.len() as int)
    &&& forall|k: int| 0 <= k < ts.len() ==> #[trigger] tallied(tallies, ts[k])
    &&& forall|i: int, j: int| 0 <= i < j < tallies.len() ==> ahead(tallies[i], tallies[j])
}

/// The lines on the first `n` tallies.
pub open spec fn tally_lines(tallies: Seq<Tally>) -> Seq<Seq<char>> {
    Seq::new(
        tallies.len(),
        |i: int| aligned(decimal(tallies[i].0 as nat), 6) + " "@ + tallies[i].1@,
    )
}

/// What a new occurrence does to the number of occurrences of another text.
proof fn lemma_occurrences_bound(ts: Seq<Seq<char>>, x: Seq<char>, n: int)
    requires
        0 <= n <= ts.len(),
    ensures
        occurrences(ts, x, n) <= n,
        occurrences(ts, x, n) > 0 <==> exists|k: int| 0 <= k < n && #[trigger] ts[k] == x,
    decreases n,
{
    if n > 0 {
        lemma_occurrences_bound(ts, x, n - 1);
        if occurrences(ts, x, n - 1) > 0 {
            let k = choose|k: int| 0 <= k < n - 1 && #[trigger] ts[k] == x;
            assert(ts[k] == x);
        }
    }
}

/// The tallies have different targets.
pub open spec fn distinct(tallies: Seq<Tally>) -> bool {
    forall|i: int, j: int| 0 <= i < j < tallies.len() ==> tallies[i].1@ != tallies[j].1@
}

/// The distinct targets with their numbers, in the order of first occurrence.
fn tally(ts: &Vec<String>) -> (r: Vec<Tally>)
    ensures
        forall|i: int|
            0 <= i < r@.len() ==> #[trigger] exact(views(ts@), r@[i], ts@.len() as int),
        forall|k: int| 0 <= k < ts@.len() ==> #[trigger] tallied(r@, views(ts@)[k]),
        distinct(r@),
{
    let ghost tv = views(ts@);
    let mut r: Vec<Tally> = Vec::new();
    let mut n: usize = 0;
    while n < ts.len()
        invariant
            tv == views(ts@),
            n <= ts@.len(),
            forall|i: int| 0 <= i < r@.len() ==> #[trigger] exact(tv, r@[i], n as int),
            forall|k: int| 0 <= k < n ==> #[trigger] tallied(r@, tv[k]),
            distinct(r@),
        decreases ts@.len() - n,
    {
        let ghost r0 = r@;
        let ghost x = tv[n as int];
        assert(x == ts@[n as int]@);
        let mut i: usize = 0;
        while i < r.len() && !same(r[i].1.as_str(), ts[n].as_str())
            invariant
                n < ts@.len(),
                i <= r@.len(),
                x == ts@[n as int]@,
                forall|k: int| 0 <= k < i ==> (#[trigger] r@[k]).1@ != x,
            decreases r@.len() - i,
        {
            i += 1;
        }
        if i < r.len() {
            assert(r@[i as int].1@ == x);
            assert(exact(tv, r0[i as int], n as int));
            proof {
                lemma_occurrences_bound(tv, x, n as int);
            }
            let c: u64 = r[i].0 + 1;
            let name = r[i].1.clone();
            r.set(i, (c, name));
            assert forall|k: int| 0 <= k < r@.len() implies #[trigger] exact(tv, r@[k], n + 1) by {
                assert(exact(tv, r0[k], n as int));
                if k < i {
                    assert(r0[k].1@ != r0[i as int].1@);
                } else if k > i {
                    assert(r0[i as int].1@ != r0[k].1@);
                }
            }
            assert forall|k: int| 0 <= k < n + 1 implies #[trigger] tallied(r@, tv[k]) by {
                if k < n {
                    assert(tallied(r0, tv[k]));
                    let j = choose|j: int| 0 <= j < r0.len() && (#[trigger] r0[j]).1@ == tv[k];
                    assert(r@[j].1@ == tv[k]);
                } else {
                    assert(r@[i as int].1@ == tv[k]);
                }
            }
            assert forall|a: int, b: int| 0 <= a < b < r@.len() implies r@[a].1@ != r@[b].1@ by {
                assert(r0[a].1@ != r0[b].1@);
            }
        } else {
            proof {
                lemma_occurrences_bound(tv, x, n as int);
                if occurrences(tv, x, n as int) > 0 {
                    let k = choose|k: int| 0 <= k < n && #[trigger] tv[k] == x;
                    assert(tallied(r@, tv[k]));
                    let j = choose|j: int| 0 <= j < r@.len() && (#[trigger] r@[j]).1@ == tv[k];
                    assert(r@[j].1@ == x);
                }
            }
            r.push((1, ts[n].clone()));
            assert forall|k: int| 0 <= k < r@.len() implies #[trigger] exact(tv, r@[k], n + 1) by {
                if k < r0.len() {
                    assert(exact(tv, r0[k], n as int));
                    assert(r0[k].1@ != x);
                }
            }
            assert forall|k: int| 0 <= k < n + 1 implies #[trigger] tallied(r@, tv[k]) by {
                if k < n {
                    assert(tallied(r0, tv[k]));
                    let j = choose|j: int| 0 <= j < r0.len() && (#[trigger] r0[j]).1@ == tv[k];
                    assert(r@[j].1@ == tv[k]);
                } else {
                    assert(r@[r0.len() as int].1@ == tv[k]);
                }
            }
            assert forall|a: int, b: int| 0 <= a < b < r@.len() implies r@[a].1@ != r@[b].1@ by {
                if b < r0.len() {
                    assert(r0[a].1@ != r0[b].1@);
                } else {
                    assert(r@[a] == r0[a]);
                    assert(r0[a].1@ != x);
                }
            }
        }
        n += 1;
    }
    r
}

/// Of two tallies with different targets, one stands ahead.
proof fn lemma_ahead_total(a: Tally, b: Tally)
    requires
        a.1@ != b.1@,
    ensures
        ahead(a, b) || ahead(b, a),
{
    assert(a.1@.take(0) =~= b.1@.take(0));
    crate::util::order::lemma_before_total(a.1@, b.1@, 0);
}

/// What stands ahead of something stands ahead of what that stands ahead of.
proof fn lemma_ahead_transitive(a: Tally, b: Tally, c: Tally)
    requires
        ahead(a, b),
        ahead(b, c),
    ensures
        ahead(a, c),
{
    if a.0 == b.0 && b.0 == c.0 {
        crate::util::order::lemma_before_transitive(a.1@, b.1@, c.1@, 0);
    }
}

/// Whether the first tally stands ahead of the second.
fn is_ahead(a: &Tally, b: &Tally) -> (r: bool)
    ensures
        r == ahead(*a, *b),
{
    a.0 > b.0 || (a.0 == b.0 && comes_before(a.1.as_str(), b.1.as_str()))
}

/// The tally stands among the first `n`.
pub open spec fn among(tallies: Seq<Tally>, n: int, t: Tally) -> bool {
    exists|i: int| 0 <= i < n && #[trigger] tallies[i] == t
}

/// A tally put behind all that stand ahead of it keeps the order.
proof fn lemma_insert_ahead(r: Seq<Tally>, e: Tally, k: int)
    requires
        forall|i: int, j: int| 0 <= i < j < r.len() ==> ahead(r[i], r[j]),
        0 <= k <= r.len(),
        k > 0 ==> ahead(r[k - 1], e),
        forall|j: int| k <= j < r.len() ==> ahead(e, #[trigger] r[j]),
    ensures
        forall|i: int, j: int|
            0 <= i < j < r.len() + 1 ==> ahead(r.insert(k, e)[i], r.insert(k, e)[j]),
{
    let t = r.insert(k, e);
    assert forall|i: int, j: int| 0 <= i < j < t.len() implies ahead(t[i], t[j]) by {
        if i == k {
            assert(ahead(e, r[j - 1]));
        } else if j == k {
            if i < k - 1 {
                assert(ahead(r[i], r[k - 1]));
                lemma_ahead_transitive(r[i], r[k - 1], e);
            }
        } else if i > k {
            assert(ahead(r[i - 1], r[j - 1]));
        } else if j > k {
            assert(ahead(r[i], r[j - 1]));
        } else {
            assert(ahead(r[i], r[j]));
        }
    }
}

/// The targets of descriptors, each once, with their numbers, the most frequent
/// first.
pub fn count_targets(ts: &Vec<String>) -> (r: Vec<Tally>)
    ensures
        counts(views(ts@), r@),
{
    let all = tally(ts);
    let mut r: Vec<Tally> = Vec::new();
    let mut n: usize = 0;
    while n < all.len()
        invariant
            n <= all@.len(),
            distinct(all@),
            forall|i: int| 0 <= i < r@.len() ==> #[trigger] among(all@, n as int, r@[i]),
            forall|k: int| 0 <= k < n ==> #[trigger] among(r@, r@.len() as int, all@[k]),
            forall|i: int, j: int| 0 <= i < j < r@.len() ==> ahead(r@[i], r@[j]),
        decreases all@.len() - n,
    {
        let ghost r0 = r@;
        let ghost e = all@[n as int];
        let mut k: usize = r.len();
        while k > 0 && is_ahead(&all[n], &r[k - 1])
            invariant
                n < all@.len(),
                e == all@[n as int],
                r@ == r0,
                k <= r0.len(),
                forall|j: int| k <= j < r0.len() ==> ahead(e, #[trigger] r0[j]),
            decreases k,
        {
            k -= 1;
        }
        proof {
            if k > 0 {
                assert(among(all@, n as int, r0[k - 1]));
                let o = choose|o: int| 0 <= o < n && #[trigger] all@[o] == r0[k - 1];
                assert(all@[o].1@ != all@[n as int].1@);
                lemma_ahead_total(r0[k - 1], e);
            }
            lemma_insert_ahead(r0, e, k as int);
        }
        r.insert(k, (all[n].0, all[n].1.clone()));
        proof {
            assert(r@ =~= r0.insert(k as int, e));
            assert forall|i: int| 0 <= i < r@.len() implies #[trigger] among(
                all@,
                n + 1,
                r@[i],
            ) by {
                if i == k {
                    assert(all@[n as int] == r@[i]);
                } else {
                    let s = if i < k {
                        r0[i]
                    } else {
                        r0[i - 1]
                    };
                    assert(r@[i] == s);
                    assert(among(all@, n as int, s));
                    let o = choose|o: int| 0 <= o < n && #[trigger] all@[o] == s;
                    assert(all@[o] == r@[i]);
                }
            }
            assert forall|o: int| 0 <= o < n + 1 implies #[trigger] among(
                r@,
                r@.len() as int,
                all@[o],
            ) by {
                if o == n {
                    assert(r@[k as int] == all@[o]);
                } else {
                    assert(among(r0, r0.len() as int, all@[o]));
                    let i = choose|i: int| 0 <= i < r0.len() && #[trigger] r0[i] == all@[o];
                    if i < k {
                        assert(r@[i] == all@[o]);
                    } else {
                        assert(r@[i + 1] == all@[o]);
                    }
                }
            }
        }
        n += 1;
    }
    proof {
        let tv = views(ts@);
        assert forall|i: int| 0 <= i < r@.len() implies #[trigger] exact(
            tv,
            r@[i],
            tv.len() as int,
        ) by {
            assert(among(all@, n as int, r@[i]));
            let k = choose|k: int| 0 <= k < all@.len() && #[trigger] all@[k] == r@[i];
            assert(exact(tv, all@[k], tv.len() as int));
        }
        assert forall|k: int| 0 <= k < tv.len() implies #[trigger] tallied(r@, tv[k]) by {
            assert(tallied(all@, tv[k]));
            let o = choose|o: int| 0 <= o < all@.len() && (#[trigger] all@[o]).1@ == tv[k];
            assert(among(r@, r@.len() as int, all@[o]));
            let i = choose|i: int| 0 <= i < r@.len() && #[trigger] r@[i] == all@[o];
            assert(r@[i].1@ == tv[k]);
        }
    }
    r
}

/// The texts on the open files of a process: the list, their number, and the
/// targets with their numbers.
pub fn descriptor_texts(ds: &Vec<Descriptor>) -> (r: (String, String, String))
    ensures
        r.0@ == terminated(descriptor_lines(ds@)),
        r.1@ == decimal(ds@.len()) + "\n"@,
        exists|tallies: Seq<Tally>|
            counts(targets_of(ds@), tallies) && r.2@ == terminated(#[trigger] tally_lines(tallies)),
{
    let mut list: Vec<String> = Vec::new();
    let mut targets: Vec<String> = Vec::new();
    let mut i: usize = 0;
    while i < ds.len()
        invariant
            i <= ds@.len(),
            list@.len() == i,
            targets@.len() == i,
            forall|k: int| 0 <= k < i ==> (#[trigger] list@[k])@ == descriptor_lines(ds@)[k],
            forall|k: int| 0 <= k < i ==> (#[trigger] targets@[k])@ == target_of(ds@[k]),
        decreases ds@.len() - i,
    {
        let target = match &ds[i].1 {
            Some(t) => t.clone(),
            None => "?".to_owned(),
        };
        let mut l = ds[i].0.clone();
        l.append(" -> ");
        l.append(target.as_str());
        list.push(l);
        targets.push(target);
        i += 1;
    }
    assert(views(list@) =~= descriptor_lines(ds@));
    assert(views(targets@) =~= targets_of(ds@));
    let mut count = show(ds.len() as u64);
    count.append("\n");
    let tallies = count_targets(&targets);
    let mut rows: Vec<String> = Vec::new();
    let mut n: usize = 0;
    while n < tallies.len()
        invariant
            n <= tallies@.len(),
            rows@.len() == n,
            forall|k: int| 0 <= k < n ==> (#[trigger] rows@[k])@ == tally_lines(tallies@)[k],
        decreases tallies@.len() - n,
    {
        let mut l = align(show(tallies[n].0).as_str(), 6);
        l.append(" ");
        l.append(tallies[n].1.as_str());
        rows.push(l);
        n += 1;
    }
    assert(views(rows@) =~= tally_lines(tallies@));
    (terminate(&list), count, terminate(&rows))
}

/// The text of `12-proc-sockets.txt`: the lines of the two outputs of `ss` that
/// name the process.
pub fn socket_text(pid: u32, listening: &str, established: &str) -> (r: String)
    ensures
        ({
            let key = seq!["pid="@ + decimal(pid as nat)];
            r@ == terminated(grepped(listening@, key)) + terminated(grepped(established@, key))
        }),
{
    let mut filter = "pid=".to_owned();
    filter.append(show(pid as u64).as_str());
    let keys = vec![filter];
    assert(views(keys@) =~= seq!["pid="@ + decimal(pid as nat)]);
    let mut r = terminate(&grep(listening, &keys));
    r.append(terminate(&grep(established, &keys)).as_str());
    r
}

/// The control group in the text of `/proc/<pid>/cgroup`: the third field of
/// the first line.
pub open spec fn cgroup_of(text: Seq<char>) -> Seq<char> {
    if lines(text).len() == 0 {
        Seq::empty()
    } else {
        match cut(lines(text)[0], Class::Is(':')) {
            Some((_, rest)) => match cut(rest, Class::Is(':')) {
                Some((_, path)) => path,
                None => Seq::empty(),
            },
            None => Seq::empty(),
        }
    }
}

/// The directory of a process's control group; none where the text names none,
/// or one with `..` in it.
pub fn cgroup_dir(text: &str) -> (r: Option<String>)
    ensures
        ({
            let path = cgroup_of(text@);
            match r {
                Some(d) => path.len() > 0 && !holds_text(path, ".."@) && d@ == "/sys/fs/cgroup"@
                    + path,
                None => path.len() == 0 || holds_text(path, ".."@),
            }
        }),
{
    let ls = lines_of(text);
    assert(views(ls@).len() == ls@.len());
    if ls.len() == 0 {
        return None;
    }
    assert(views(ls@)[0] == ls@[0]@);
    let rest = match split_once(ls[0].as_str(), Class::Is(':')) {
        Some((_, rest)) => rest,
        None => return None,
    };
    let path = match split_once(rest, Class::Is(':')) {
        Some((_, path)) => path,
        None => return None,
    };
    if path.is_empty() || contains(path, "..") {
        return None;
    }
    let mut d = "/sys/fs/cgroup".to_owned();
    d.append(path);
    Some(d)
}

/// The text of `04-proc-status.txt`.
pub fn status_text(pid: u32, status: &str) -> (r: String)
    ensures
        r@ == "PID "@ + decimal(pid as nat) + " still alive, collecting /proc data...\n\n"@
            + status@,
{
    let mut r = "PID ".to_owned();
    r.append(show(pid as u64).as_str());
    r.append(" still alive, collecting /proc data...\n\n");
    r.append(status);
    r
}

/// The text of `04-proc-UNAVAILABLE.txt`, where the process is gone. `attached`
/// says whether the last known snapshot is there.
pub fn unavailable_text(pid: u32, attached: bool) -> (r: String)
    ensures
        ({
            let head = "PID "@ + (if pid > 0 {
                decimal(pid as nat)
            } else {
                "unknown"@
            })
                + " not available (already reaped).\nRelying on journal, systemd state, and OuterClaw's last /proc snapshot.\n"@;
            r@ == if attached {
                head
                    + "\nLast known /proc snapshot (from OuterClaw monitor) attached as 04-proc-last-known-snapshot.json\n"@
            } else {
                head
            }
        }),
{
    let mut r = "PID ".to_owned();
    if pid > 0 {
        r.append(show(pid as u64).as_str());
    } else {
        r.append("unknown");
    }
    r.append(
        " not available (already reaped).\nRelying on journal, systemd state, and OuterClaw's last /proc snapshot.\n",
    );
    if attached {
        r.append(
            "\nLast known /proc snapshot (from OuterClaw monitor) attached as 04-proc-last-known-snapshot.json\n",
        );
    }
    r
}

/// The text of `16-dmesg.txt`: the recent messages, or the last 100 where there
/// are none.
pub fn dmesg_text(recent: &str, all: &str) -> (r: String)
    ensures
        r@ == if trim_white(recent@).len() == 0 {
            joined(last_lines(lines(all@), 100), "\n"@)
        } else {
            recent@
        },
{
    if trim(recent).is_empty() {
        join(&tail_lines(all, 100), "\n")
    } else {
        recent.to_owned()
    }
}

/// The state of the system, as the commands print it.
pub struct SystemContext {
    pub uptime: String,
    pub free: String,
    pub df: String,
    pub loadavg: String,
    pub by_memory: String,
    pub by_cpu: String,
}

/// The text of `15-system-context.txt`.
pub fn context_text(time: &str, c: &SystemContext) -> (r: String)
    ensures
        r@ == "=== System Context at "@ + time@ + " ===\n\n--- uptime ---\n"@ + c.uptime@
            + "\n\n--- free ---\n"@ + c.free@ + "\n\n--- df ---\n"@ + c.df@
            + "\n\n--- loadavg ---\n"@ + c.loadavg@ + "\n\n--- top 10 memory consumers ---\n"@
            + c.by_memory@ + "\n\n--- top 10 CPU consumers ---\n"@ + c.by_cpu@,
{
    let mut r = "=== System Context at ".to_owned();
    r.append(time);
    r.append(" ===\n\n--- uptime ---\n");
    r.append(c.uptime.as_str());
    r.append("\n\n--- free ---\n");
    r.append(c.free.as_str());
    r.append("\n\n--- df ---\n");
    r.append(c.df.as_str());
    r.append("\n\n--- loadavg ---\n");
    r.append(c.loadavg.as_str());
    r.append("\n\n--- top 10 memory consumers ---\n");
    r.append(c.by_memory.as_str());
    r.append("\n\n--- top 10 CPU consumers ---\n");
    r.append(c.by_cpu.as_str());
    r
}

/// The text of `01-systemd-state.txt`.
pub fn systemd_text(time: &str, output: &str) -> (r: String)
    ensures
        r@ == "=== Systemd Service State ===\nCollected: "@ + time@ + "\n\n"@ + output@,
{
    let mut r = "=== Systemd Service State ===\nCollected: ".to_owned();
    r.append(time);
    r.append("\n\n");
    r.append(output);
    r
}

// ── The summary ───────────────────────────────────────────────────────

/// A line, in lower case, speaks of the OOM killer.
pub open spec fn oom_keys() -> Seq<Seq<char>> {
    seq!["oom"@, "killed process"@, "out of memory"@]
}

/// Whether a line, in lower case, speaks of the OOM killer.
pub fn mentions_oom(lower: &str) -> (r: bool)
    ensures
        r == any_in(lower@, oom_keys()),
{
    let v = vec!["oom", "killed process", "out of memory"];
    assert(strs(v@) =~= oom_keys());
    has_any(lower, &owned(v))
}

/// The lines among the first `n` that speak of the OOM killer.
pub open spec fn oom_lines(ls: Seq<Seq<char>>, n: int) -> Seq<Seq<char>>
    decreases n,
{
    if n <= 0 {
        Seq::empty()
    } else if any_in(lowercase(ls[n - 1]), oom_keys()) {
        oom_lines(ls, n - 1).push(ls[n - 1])
    } else {
        oom_lines(ls, n - 1)
    }
}

/// The lines of a text that speak of the OOM killer.
fn grep_oom(text: &str) -> (r: Vec<String>)
    ensures
        views(r@) == oom_lines(lines(text@), lines(text@).len() as int),
{
    let ls = lines_of(text);
    let mut r: Vec<String> = Vec::new();
    assert(views(r@) =~= Seq::<Seq<char>>::empty());
    let mut i: usize = 0;
    while i < ls.len()
        invariant
            views(ls@) == lines(text@),
            i <= ls@.len(),
            views(r@) == oom_lines(lines(text@), i as int),
        decreases ls@.len() - i,
    {
        assert(views(ls@)[i as int] == ls@[i as int]@);
        let lower = to_lower(ls[i].as_str());
        if mentions_oom(lower.as_str()) {
            let ghost seen = views(r@);
            r.push(ls[i].clone());
            assert(views(r@) =~= seen.push(lines(text@)[i as int]));
        }
        i += 1;
    }
    r
}

/// The member of a snapshot speaks of memory, threads or files.
pub open spec fn telling(key: Seq<char>) -> bool {
    begins(key, "Vm"@) || begins(key, "Thread"@) || begins(key, "fd_"@) || begins(key, "oom_"@)
}

/// The lines on the first `n` members of a snapshot.
pub open spec fn member_lines(fields: Seq<(Seq<char>, Tree)>, n: int) -> Seq<Seq<char>>
    decreases n,
{
    if n <= 0 {
        Seq::empty()
    } else if telling(fields[n - 1].0) {
        member_lines(fields, n - 1).push(fields[n - 1].0 + ": "@ + fields[n - 1].1.text)
    } else {
        member_lines(fields, n - 1)
    }
}

/// The lines on a snapshot.
pub open spec fn snapshot_lines(t: Tree) -> Seq<Seq<char>> {
    match t.kind {
        TreeKind::Object(fields) => member_lines(fields, fields.len() as int),
        _ => Seq::empty(),
    }
}

/// The lines on a snapshot.
pub fn describe_snapshot(j: &Json) -> (r: Vec<String>)
    ensures
        views(r@) == snapshot_lines(j@),
{
    let mut r: Vec<String> = Vec::new();
    assert(views(r@) =~= Seq::<Seq<char>>::empty());
    match &j.kind {
        Kind::Object(v) => {
            let ghost fields = j@.kind->Object_0;
            let mut i: usize = 0;
            while i < v.len()
                invariant
                    i <= v@.len(),
                    j@.kind == TreeKind::Object(fields),
                    fields.len() == v@.len(),
                    forall|k: int|
                        0 <= k < v@.len() ==> (#[trigger] fields[k]).0 == v@[k].0@ && fields[k].1
                            == v@[k].1@,
                    views(r@) == member_lines(fields, i as int),
                decreases v@.len() - i,
            {
                let key = v[i].0.as_str();
                assert(fields[i as int].0 == v@[i as int].0@);
                if starts(key, "Vm") || starts(key, "Thread") || starts(key, "fd_") || starts(
                    key,
                    "oom_",
                ) {
                    let ghost seen = views(r@);
                    let mut l = key.to_owned();
                    l.append(": ");
                    l.append(v[i].1.text.as_str());
                    r.push(l);
                    assert(views(r@) =~= seen.push(l@));
                }
                i += 1;
            }
        },
        _ => {},
    }
    r
}

/// What has been collected.
pub struct Collected<'a> {
    pub unit: &'a str,
    pub ts: &'a str,
    pub pid: Option<u32>,
    pub dir: &'a str,
    /// The text of `01-systemd-state.txt`.
    pub systemd_state: &'a str,
    /// The text of `03-journal-errors.txt`.
    pub errors: &'a str,
    /// The text of `16-dmesg.txt`.
    pub dmesg: &'a str,
    /// The text of `04-proc-status.txt`, where there is one.
    pub proc_status: Option<&'a str>,
    /// The text of `04-proc-last-known-snapshot.json`, where there is one.
    pub snapshot: Option<&'a str>,
    /// The names and sizes of the files.
    pub files: &'a Vec<(String, u64)>,
}

/// The heading of the summary.
pub open spec fn summary_head(c: Collected) -> Seq<char> {
    "================================================================\n            POST-MORTEM REPORT\n================================================================\n\nUnit:      "@
        + c.unit@ + ".service\nTimestamp: "@ + c.ts@ + "\nPID:       "@ + (match c.pid {
        Some(p) => decimal(p as nat),
        None => "unknown"@,
    }) + "\nDirectory: "@ + c.dir@ + "\n\n"@
}

/// The lines of the state that the summary shows.
pub open spec fn state_keys() -> Seq<Seq<char>> {
    seq!["Result"@, "ExecMainStatus"@, "ActiveState"@, "NRestarts"@]
}

/// The lines of the process's status that the summary shows.
pub open spec fn memory_keys() -> Seq<Seq<char>> {
    seq!["VmRSS"@, "VmPeak"@, "VmSize"@, "Threads"@]
}

/// The section on the service.
pub open spec fn state_section(c: Collected) -> Seq<char> {
    "-- Systemd Result --\n"@ + terminated(grepped(c.systemd_state@, state_keys()))
        + (if c.systemd_state@.len() == 0 {
        "(not available)\n"@
    } else {
        Seq::empty()
    }) + "\n"@
}

/// The section on the last errors.
pub open spec fn error_section(c: Collected) -> Seq<char> {
    "-- Last 5 Errors --\n"@ + terminated(last_lines(lines(c.errors@), 5)) + (if lines(
        c.errors@,
    ).len() == 0 {
        "(no errors captured)\n"@
    } else {
        Seq::empty()
    }) + "\n"@
}

/// The section on the OOM killer.
pub open spec fn oom_section(c: Collected) -> Seq<char> {
    let ls = oom_lines(lines(c.dmesg@), lines(c.dmesg@).len() as int);
    "-- OOM Killer --\n"@ + terminated(ls) + (if ls.len() == 0 {
        "(no OOM events)\n"@
    } else {
        Seq::empty()
    }) + "\n"@
}

/// The lines on the memory of the process: from its status, or else from the
/// last known snapshot.
pub open spec fn memory_lines(c: Collected) -> Seq<Seq<char>> {
    match c.proc_status {
        Some(s) => grepped(s@, memory_keys()),
        None => match c.snapshot {
            Some(j) => match json_tree(j@) {
                Some(t) => snapshot_lines(t),
                None => Seq::empty(),
            },
            None => Seq::empty(),
        },
    }
}

/// The section on the memory of the process.
pub open spec fn memory_section(c: Collected) -> Seq<char> {
    "-- Memory at Death --\n"@ + terminated(memory_lines(c)) + "\n"@
}

/// The lines on the files collected.
pub open spec fn file_lines(files: Seq<(String, u64)>) -> Seq<Seq<char>> {
    Seq::new(
        files.len(),
        |i: int| "  "@ + aligned(decimal(files[i].1 as nat), 10) + "  "@ + files[i].0@,
    )
}

/// The summary, with the lines on the files in the order `sorted`.
pub open spec fn summary(c: Collected, sorted: Seq<Seq<char>>) -> Seq<char> {
    summary_head(c) + state_section(c) + error_section(c) + oom_section(c) + memory_section(c)
        + "-- Files Collected --\n"@ + terminated(sorted)
}

/// The heading of the summary.
fn head_text(c: &Collected) -> (r: String)
    ensures
        r@ == summary_head(*c),
{
    let mut r = "================================================================\n            POST-MORTEM REPORT\n================================================================\n\nUnit:      ".to_owned();
    r.append(c.unit);
    r.append(".service\nTimestamp: ");
    r.append(c.ts);
    r.append("\nPID:       ");
    match c.pid {
        Some(p) => r.append(show(p as u64).as_str()),
        None => r.append("unknown"),
    }
    r.append("\nDirectory: ");
    r.append(c.dir);
    r.append("\n\n");
    r
}

/// The section on the service.
fn state_text(c: &Collected) -> (r: String)
    ensures
        r@ == state_section(*c),
{
    let v = vec!["Result", "ExecMainStatus", "ActiveState", "NRestarts"];
    assert(strs(v@) =~= state_keys());
    let mut r = "-- Systemd Result --\n".to_owned();
    r.append(terminate(&grep(c.systemd_state, &owned(v))).as_str());
    let ghost so_far = r@;
    if c.systemd_state.is_empty() {
        r.append("(not available)\n");
    } else {
        assert(so_far + Seq::<char>::empty() =~= so_far);
    }
    r.append("\n");
    r
}

/// The section on the last errors.
fn error_text(c: &Collected) -> (r: String)
    ensures
        r@ == error_section(*c),
{
    let last = tail_lines(c.errors, 5);
    assert(views(last@).len() == last@.len());
    let mut r = "-- Last 5 Errors --\n".to_owned();
    r.append(terminate(&last).as_str());
    let ghost so_far = r@;
    if last.len() == 0 {
        r.append("(no errors captured)\n");
    } else {
        assert(so_far + Seq::<char>::empty() =~= so_far);
    }
    r.append("\n");
    r
}

/// The section on the OOM killer.
fn oom_text(c: &Collected) -> (r: String)
    ensures
        r@ == oom_section(*c),
{
    let ls = grep_oom(c.dmesg);
    assert(views(ls@).len() == ls@.len());
    let mut r = "-- OOM Killer --\n".to_owned();
    r.append(terminate(&ls).as_str());
    let ghost so_far = r@;
    if ls.len() == 0 {
        r.append("(no OOM events)\n");
    } else {
        assert(so_far + Seq::<char>::empty() =~= so_far);
    }
    r.append("\n");
    r
}

/// The section on the memory of the process.
fn memory_text(c: &Collected) -> (r: String)
    ensures
        r@ == memory_section(*c),
{
    let none: Vec<String> = Vec::new();
    assert(views(none@) =~= Seq::<Seq<char>>::empty());
    let ls = match c.proc_status {
        Some(s) => {
            let v = vec!["VmRSS", "VmPeak", "VmSize", "Threads"];
            assert(strs(v@) =~= memory_keys());
            grep(s, &owned(v))
        },
        None => match c.snapshot {
            Some(j) => match read_json(j) {
                Some(json) => describe_snapshot(&json),
                None => none,
            },
            None => none,
        },
    };
    let mut r = "-- Memory at Death --\n".to_owned();
    r.append(terminate(&ls).as_str());
    r.append("\n");
    r
}

/// The text of the 00-SUMMARY.txt report.
pub fn generate_summary(c: &Collected) -> (r: String)
    ensures
        exists|sorted: Seq<Seq<char>>|
            in_order(file_lines(c.files@), sorted) && r@ == #[trigger] summary(*c, sorted),
{
    let mut r = head_text(c);
    r.append(state_text(c).as_str());
    r.append(error_text(c).as_str());
    r.append(oom_text(c).as_str());
    r.append(memory_text(c).as_str());
    r.append("-- Files Collected --\n");
    let mut rows: Vec<String> = Vec::new();
    let mut i: usize = 0;
    while i < c.files.len()
        invariant
            i <= c.files@.len(),
            rows@.len() == i,
            forall|k: int| 0 <= k < i ==> (#[trigger] rows@[k])@ == file_lines(c.files@)[k],
        decreases c.files@.len() - i,
    {
        let mut l = "  ".to_owned();
        l.append(align(show(c.files[i].1).as_str(), 10).as_str());
        l.append("  ");
        l.append(c.files[i].0.as_str());
        rows.push(l);
        i += 1;
    }
    assert(views(rows@) =~= file_lines(c.files@));
    let sorted = sort_ascending(rows);
    r.append(terminate(&sorted).as_str());
    assert(r@ == summary(*c, views(sorted@)));
    r
}

// ── What is shown and what is not ─────────────────────────────────────

/// A variable is redacted exactly where its name, in upper case, holds one of
/// the words that mark a secret; every other line is kept as it is.
pub proof fn law_secrets_are_told_by_name(key: Seq<char>, value: Seq<char>, plain: Seq<char>)
    requires
        forall|i: int| 0 <= i < key.len() ==> #[trigger] key[i] != '=',
        forall|i: int| 0 <= i < plain.len() ==> #[trigger] plain[i] != '=',
    ensures
        ({
            let u = uppercase(key);
            let secret = holds_text(u, "TOKEN"@) || holds_text(u, "KEY"@) || holds_text(u, "SECRET"@) || holds_text(u, "PASSWORD"@) || holds_text(u, "APIKEY"@) || holds_text(u, "API_KEY"@) || holds_text(u, "CREDENTIAL"@) || holds_text(u, "PRIVATE"@) || holds_text(u, "AUTH"@) || holds_text(u, "JWT"@) || holds_text(u, "DSN"@) || holds_text(u, "_URL"@) || holds_text(u, "COOKIE"@) || holds_text(u, "SESSION"@);
            &&& secret ==> redacted_line(key.push('=') + value) == key + "=<REDACTED>"@
            &&& !secret ==> redacted_line(key.push('=') + value) == key.push('=') + value
        }),
        redacted_line(plain) == plain,
{
    lemma_key_of(key, value);
    assert(secret_patterns()[0] == "TOKEN"@);
    assert(secret_patterns()[1] == "KEY"@);
    assert(secret_patterns()[2] == "SECRET"@);
    assert(secret_patterns()[3] == "PASSWORD"@);
    assert(secret_patterns()[4] == "APIKEY"@);
    assert(secret_patterns()[5] == "API_KEY"@);
    assert(secret_patterns()[6] == "CREDENTIAL"@);
    assert(secret_patterns()[7] == "PRIVATE"@);
    assert(secret_patterns()[8] == "AUTH"@);
    assert(secret_patterns()[9] == "JWT"@);
    assert(secret_patterns()[10] == "DSN"@);
    assert(secret_patterns()[11] == "_URL"@);
    assert(secret_patterns()[12] == "COOKIE"@);
    assert(secret_patterns()[13] == "SESSION"@);
    assert forall|j: int| 0 <= j < plain.len() implies !Class::Is('=').holds(#[trigger] plain[j]) by {}
    crate::util::text::lemma_upto_is(plain, Class::Is('='), 0, plain.len() as int);
}

/// Redaction keeps every line in its place.
pub proof fn law_redaction_keeps_the_lines(text: Seq<char>, i: int)
    requires
        0 <= i < lines(text).len(),
    ensures
        redacted_lines(text).len() == lines(text).len(),
        redacted_lines(text)[i] == redacted_line(lines(text)[i]),
{
}

/// A line of the kernel's log is shown exactly where it speaks of the OOM
/// killer, and the lines keep their order: one more line is added at the end
/// where it does, and changes nothing otherwise.
pub proof fn law_oom_lines_are_shown(ls: Seq<Seq<char>>, l: Seq<char>)
    ensures
        ({
            let s = lowercase(l);
            let tells = holds_text(s, "oom"@) || holds_text(s, "killed process"@) || holds_text(
                s,
                "out of memory"@,
            );
            let (before, after) = (
                oom_lines(ls, ls.len() as int),
                oom_lines(ls.push(l), ls.len() as int + 1),
            );
            &&& tells ==> after == before.push(l)
            &&& !tells ==> after == before
        }),
{
    lemma_oom_lines_in_longer(ls, l, ls.len() as int);
    assert(oom_keys()[0] == "oom"@ && oom_keys()[1] == "killed process"@ && oom_keys()[2]
        == "out of memory"@);
}

/// What follows does not change what is shown before.
proof fn lemma_oom_lines_in_longer(ls: Seq<Seq<char>>, l: Seq<char>, n: int)
    requires
        0 <= n <= ls.len(),
    ensures
        oom_lines(ls.push(l), n) == oom_lines(ls, n),
    decreases n,
{
    if n > 0 {
        lemma_oom_lines_in_longer(ls, l, n - 1);
        assert(ls.push(l)[n - 1] == ls[n - 1]);
    }
}

/// A section says that there is nothing exactly where there is nothing: no state
/// of the service, no errors, no word of the OOM killer.
pub proof fn law_empty_sections_say_so(c: Collected, l: Seq<char>)
    ensures
        c.systemd_state@.len() == 0 ==> state_section(c) == "-- Systemd Result --\n"@ + terminated(
            grepped(c.systemd_state@, state_keys()),
        ) + "(not available)\n"@ + "\n"@,
        c.systemd_state@.len() > 0 ==> state_section(c) == "-- Systemd Result --\n"@ + terminated(
            grepped(c.systemd_state@, state_keys()),
        ) + "\n"@,
        lines(c.errors@).len() == 0 ==> error_section(c) == "-- Last 5 Errors --\n"@
            + "(no errors captured)\n"@ + "\n"@,
        0 < lines(c.errors@).len() <= 5 ==> error_section(c) == "-- Last 5 Errors --\n"@
            + terminated(lines(c.errors@)) + "\n"@,
        lines(c.errors@).len() > 5 ==> error_section(c) == "-- Last 5 Errors --\n"@ + terminated(
            lines(c.errors@).skip(lines(c.errors@).len() - 5),
        ) + "\n"@,
{
    let e = Seq::<char>::empty();
    assert(terminated(Seq::<Seq<char>>::empty()) =~= e);
    if lines(c.errors@).len() == 0 {
        assert(lines(c.errors@) =~= Seq::<Seq<char>>::empty());
        assert("-- Last 5 Errors --\n"@ + e =~= "-- Last 5 Errors --\n"@);
    } else {
        let s = "-- Last 5 Errors --\n"@ + terminated(last_lines(lines(c.errors@), 5));
        assert(s + e =~= s);
    }
    let t = "-- Systemd Result --\n"@ + terminated(grepped(c.systemd_state@, state_keys()));
    assert(t + e =~= t);
}

/// The memory is told from the status of the process where there is one, and
/// only else from the last snapshot.
pub proof fn law_process_status_comes_first(c: Collected)
    ensures
        c.proc_status matches Some(s) ==> memory_lines(c) == grepped(
            s@,
            seq!["VmRSS"@, "VmPeak"@, "VmSize"@, "Threads"@],
        ),
        c.proc_status is None ==> (c.snapshot matches Some(j) ==> (json_tree(j@) matches Some(t)
            ==> memory_lines(c) == snapshot_lines(t))),
        c.proc_status is None && c.snapshot is None ==> memory_lines(c).len() == 0,
{
}

/// The members of a snapshot that tell of memory, threads and files are shown
/// with their values, in their order, and no others.
pub proof fn law_telling_members_are_shown(fields: Seq<(Seq<char>, Tree)>, key: Seq<char>, value: Tree)
    ensures
        ({
            let tells = begins(key, "Vm"@) || begins(key, "Thread"@) || begins(key, "fd_"@) || begins(
                key,
                "oom_"@,
            );
            let n = fields.len() as int;
            let (before, after) = (
                member_lines(fields, n),
                member_lines(fields.push((key, value)), n + 1),
            );
            &&& tells ==> after == before.push(key + ": "@ + value.text)
            &&& !tells ==> after == before
        }),
{
    lemma_member_lines_in_longer(fields, (key, value), fields.len() as int);
}

/// What follows does not change what is shown before.
proof fn lemma_member_lines_in_longer(
    fields: Seq<(Seq<char>, Tree)>,
    f: (Seq<char>, Tree),
    n: int,
)
    requires
        0 <= n <= fields.len(),
    ensures
        member_lines(fields.push(f), n) == member_lines(fields, n),
    decreases n,
{
    if n > 0 {
        lemma_member_lines_in_longer(fields, f, n - 1);
        assert(fields.push(f)[n - 1] == fields[n - 1]);
    }
}

/// The control group is what follows the second colon of the first line.
pub proof fn law_control_group_follows_two_colons(
    id: Seq<char>,
    controllers: Seq<char>,
    path: Seq<char>,
    text: Seq<char>,
)
    requires
        forall|i: int| 0 <= i < id.len() ==> #[trigger] id[i] != ':',
        forall|i: int| 0 <= i < controllers.len() ==> #[trigger] controllers[i] != ':',
        lines(text).len() > 0,
        lines(text)[0] == id.push(':') + controllers.push(':') + path,
    ensures
        cgroup_of(text) == path,
{
    let rest = controllers.push(':') + path;
    let l = id.push(':') + controllers.push(':') + path;
    assert(l =~= id.push(':') + rest);
    assert forall|j: int| 0 <= j < id.len() implies !Class::Is(':').holds(#[trigger] l[j]) by {
        assert(l[j] == id[j]);
    }
    crate::util::text::lemma_upto_is(l, Class::Is(':'), 0, id.len() as int);
    assert(l.skip(id.len() as int + 1) =~= rest);
    assert forall|j: int| 0 <= j < controllers.len() implies !Class::Is(':').holds(
        #[trigger] rest[j],
    ) by {
        assert(rest[j] == controllers[j]);
    }
    crate::util::text::lemma_upto_is(rest, Class::Is(':'), 0, controllers.len() as int);
    assert(rest.skip(controllers.len() as int + 1) =~= path);
}

/// A unit whose name is not safe is refused, whatever else happened; a safe one
/// is refused only where its directory could not be made.
pub proof fn law_unsafe_units_are_refused(unit: Seq<char>, error: Option<Seq<char>>)
    ensures
        complaint(unit, error) is None <==> is_unit_name(unit) && error is None,
        unit.len() == 0 ==> complaint(unit, error) is Some,
        unit.contains('/') ==> complaint(unit, error) is Some,
{
    if unit.contains('/') {
        let i = choose|i: int| 0 <= i < unit.len() && unit[i] == '/';
        assert(unit[i] == '/');
    }
}

/// The most frequent target stands first: no tally has a larger number than one
/// before it, and every target that occurs has a tally.
pub proof fn law_most_frequent_first(ts: Seq<Seq<char>>, tallies: Seq<Tally>, i: int, j: int, k: int)
    requires
        counts(ts, tallies),
        0 <= i < j < tallies.len(),
        0 <= k < ts.len(),
    ensures
        tallies[i].0 >= tallies[j].0,
        tallies[i].0 == tallies[j].0 ==> before(tallies[i].1@, tallies[j].1@),
        tallied(tallies, ts[k]),
        tallies[i].0 == occurrences(ts, tallies[i].1@, ts.len() as int),
{
    assert(ahead(tallies[i], tallies[j]));
    assert(exact(ts, tallies[i], ts.len() as int));
}

/// A target counts once for each time that it occurs.
pub proof fn law_targets_count_each_time(ts: Seq<Seq<char>>, t: Seq<char>, x: Seq<char>)
    ensures
        occurrences(ts.push(t), x, ts.len() as int + 1) - occurrences(ts, x, ts.len() as int) == if t
            == x {
            1int
        } else {
            0
        },
{
    lemma_occurrences_in_longer(ts, t, x, ts.len() as int);
}

/// What follows does not change how often something occurs before.
proof fn lemma_occurrences_in_longer(ts: Seq<Seq<char>>, t: Seq<char>, x: Seq<char>, n: int)
    requires
        0 <= n <= ts.len(),
    ensures
        occurrences(ts.push(t), x, n) == occurrences(ts, x, n),
    decreases n,
{
    if n > 0 {
        lemma_occurrences_in_longer(ts, t, x, n - 1);
        assert(ts.push(t)[n - 1] == ts[n - 1]);
    }
}

/// Each file is listed by its size in ten columns and its name.
pub proof fn law_files_are_listed_with_their_size(files: Seq<(String, u64)>, i: int)
    requires
        0 <= i < files.len(),
        decimal(files[i].1 as nat).len() <= 10,
    ensures
        file_lines(files).len() == files.len(),
        file_lines(files)[i].len() == 2 + 10 + 2 + files[i].0@.len(),
        file_lines(files)[i].skip(14) == files[i].0@,
{
    reveal_strlit("  ");
    assert(file_lines(files)[i].skip(14) =~= files[i].0@);
}

/// Every byte is shown in its place: a NUL by the character that stands for it,
/// and any other by the character of its number.
pub proof fn law_bytes_are_shown_in_place(b: Seq<u8>, nul: char, i: int)
    requires
        0 <= i < b.len(),
    ensures
        bytes_text(b, nul).len() == b.len(),
        b[i] == 0 ==> bytes_text(b, nul)[i] == nul,
        b[i] > 0 ==> bytes_text(b, nul)[i] == b[i] as char,
{
}

} // verus!
