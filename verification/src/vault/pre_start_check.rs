//! Gateway pre-start validation.
//!
//! Validates that the SQLite databases exist, pass integrity checks, have data,
//! and that the workspace directory exists. Blocks gateway startup on failure.

use crate::util::text::{alphanumeric, chars_of, is_alphanumeric, same, show_signed, signed_decimal, views};
use vstd::prelude::*;

verus! {

/// What is found where a database should be.
pub enum Presence {
    Present,
    NotFound,
    Denied,
    /// It cannot be looked at, for this reason.
    Unknown(String),
}

/// What is known of a database.
pub struct SourceFacts {
    pub label: String,
    pub path: String,
    pub presence: Presence,
    /// The answer of the integrity check, or why there is none.
    pub integrity: Result<String, String>,
    /// The table whose rows are counted, if any, and their number, or why there
    /// is none.
    pub count: Option<(String, Result<i64, String>)>,
}

/// What is said of the integrity of a database; nothing where it is `ok`.
pub open spec fn integrity_lines(s: SourceFacts) -> Seq<Seq<char>> {
    match s.integrity {
        Ok(answer) => if answer@ == "ok"@ {
            Seq::empty()
        } else {
            seq!["FAIL: "@ + s.label@ + " integrity check failed: "@ + answer@]
        },
        Err(e) => seq![
            "FAIL: Cannot open "@ + s.label@ + " for integrity check: "@ + e@,
        ],
    }
}

/// What is said of the rows of a database.
pub open spec fn count_lines(s: SourceFacts) -> Seq<Seq<char>> {
    match s.count {
        None => Seq::empty(),
        Some((table, Ok(n))) => if n == 0 {
            seq![
                "WARNING: "@ + s.label@ + " has 0 rows in "@ + table@
                    + " (may be fresh install)"@,
            ]
        } else {
            seq!["OK: "@ + s.label@ + " has "@ + signed_decimal(n as int) + " rows in "@ + table@]
        },
        Some((table, Err(e))) => seq![
            "FAIL: Cannot query "@ + table@ + " on "@ + s.label@ + ": "@ + e@,
        ],
    }
}

/// What is said of a database. The main one is required; others are optional.
pub open spec fn source_lines(s: SourceFacts) -> Seq<Seq<char>> {
    match s.presence {
        Presence::NotFound => if s.label@ == "main"@ {
            seq!["FAIL: "@ + s.label@ + " not found: "@ + s.path@]
        } else {
            seq!["OK: "@ + s.label@ + " not present (optional): "@ + s.path@]
        },
        Presence::Denied => seq![
            "FAIL: "@ + s.label@
                + " access denied (likely ACL mask drift; run: sudo outerclaw deploy): "@
                + s.path@,
        ],
        Presence::Unknown(e) => seq!["FAIL: Cannot stat "@ + s.path@ + ": "@ + e@],
        Presence::Present => integrity_lines(s) + count_lines(s),
    }
}

/// The database keeps the gateway from starting.
pub open spec fn blocks(s: SourceFacts) -> bool {
    match s.presence {
        Presence::NotFound => s.label@ == "main"@,
        Presence::Denied | Presence::Unknown(_) => true,
        Presence::Present => (match s.integrity {
            Ok(answer) => answer@ != "ok"@,
            Err(_) => true,
        }) || (s.count matches Some((_, Err(_)))),
    }
}

/// What is said of the rows of the main database at the end.
pub open spec fn rows_after(s: SourceFacts, rows: Seq<char>) -> Seq<char> {
    match (s.presence, s.count) {
        (Presence::Present, Some((_, Ok(n)))) => if s.label@ == "main"@ {
            "rows="@ + signed_decimal(n as int)
        } else {
            rows
        },
        _ => rows,
    }
}

/// The messages, whether the start is blocked, and the rows of the main database.
pub struct Findings {
    pub lines: Seq<Seq<char>>,
    pub failed: bool,
    pub rows: Seq<char>,
}

/// What is found of the first `n` databases.
pub open spec fn found(sources: Seq<SourceFacts>, n: int) -> Findings
    decreases n,
{
    if n <= 0 {
        Findings { lines: Seq::empty(), failed: false, rows: "rows=?"@ }
    } else {
        let f = found(sources, n - 1);
        let s = sources[n - 1];
        Findings {
            lines: f.lines + source_lines(s),
            failed: f.failed || blocks(s),
            rows: rows_after(s, f.rows),
        }
    }
}

/// What is found in all, the workspace directory included.
pub open spec fn conclusion(sources: Seq<SourceFacts>, workspace: Seq<char>, exists_dir: bool) -> Findings {
    let f = found(sources, sources.len() as int);
    let lines = if exists_dir {
        f.lines
    } else {
        f.lines.push("FAIL: Workspace directory missing: "@ + workspace)
    };
    let failed = f.failed || !exists_dir;
    Findings {
        lines: lines.push(
            if failed {
                "BLOCKED: Gateway start prevented due to validation failures"@
            } else {
                "OK: Pre-start validation passed ("@ + f.rows + ")"@
            },
        ),
        failed,
        rows: f.rows,
    }
}

/// The alert about a blocked start.
pub const BLOCKED_ALERT: &'static str = "Gateway start BLOCKED: pre-start validation failed. Check: journalctl -u openclaw-gateway";

/// What is said of the integrity of a database, added to `out`.
fn tell_integrity(s: &SourceFacts, out: &mut Vec<String>)
    ensures
        views(final(out)@) == views(old(out)@) + integrity_lines(*s),
{
    let ghost before = views(out@);
    match &s.integrity {
        Ok(answer) => {
            if !same(answer.as_str(), "ok") {
                let mut m = "FAIL: ".to_owned();
                m.append(s.label.as_str());
                m.append(" integrity check failed: ");
                m.append(answer.as_str());
                out.push(m);
                assert(views(out@) =~= before + integrity_lines(*s));
            } else {
                assert(views(out@) =~= before + integrity_lines(*s));
            }
        },
        Err(e) => {
            let mut m = "FAIL: Cannot open ".to_owned();
            m.append(s.label.as_str());
            m.append(" for integrity check: ");
            m.append(e.as_str());
            out.push(m);
            assert(views(out@) =~= before + integrity_lines(*s));
        },
    }
}

/// What is said of the rows of a database, added to `out`.
fn tell_count(s: &SourceFacts, out: &mut Vec<String>)
    ensures
        views(final(out)@) == views(old(out)@) + count_lines(*s),
{
    let ghost before = views(out@);
    match &s.count {
        None => {
            assert(views(out@) =~= before + count_lines(*s));
        },
        Some((table, Ok(n))) => {
            if *n == 0 {
                let mut m = "WARNING: ".to_owned();
                m.append(s.label.as_str());
                m.append(" has 0 rows in ");
                m.append(table.as_str());
                m.append(" (may be fresh install)");
                out.push(m);
            } else {
                let mut m = "OK: ".to_owned();
                m.append(s.label.as_str());
                m.append(" has ");
                m.append(show_signed(*n).as_str());
                m.append(" rows in ");
                m.append(table.as_str());
                out.push(m);
            }
            assert(views(out@) =~= before + count_lines(*s));
        },
        Some((table, Err(e))) => {
            let mut m = "FAIL: Cannot query ".to_owned();
            m.append(table.as_str());
            m.append(" on ");
            m.append(s.label.as_str());
            m.append(": ");
            m.append(e.as_str());
            out.push(m);
            assert(views(out@) =~= before + count_lines(*s));
        },
    }
}

/// What is said of a database, added to `out`.
fn tell_source(s: &SourceFacts, out: &mut Vec<String>)
    ensures
        views(final(out)@) == views(old(out)@) + source_lines(*s),
{
    let ghost before = views(out@);
    match &s.presence {
        Presence::NotFound => {
            if same(s.label.as_str(), "main") {
                let mut m = "FAIL: ".to_owned();
                m.append(s.label.as_str());
                m.append(" not found: ");
                m.append(s.path.as_str());
                out.push(m);
            } else {
                let mut m = "OK: ".to_owned();
                m.append(s.label.as_str());
                m.append(" not present (optional): ");
                m.append(s.path.as_str());
                out.push(m);
            }
            assert(views(out@) =~= before + source_lines(*s));
        },
        Presence::Denied => {
            let mut m = "FAIL: ".to_owned();
            m.append(s.label.as_str());
            m.append(" access denied (likely ACL mask drift; run: sudo outerclaw deploy): ");
            m.append(s.path.as_str());
            out.push(m);
            assert(views(out@) =~= before + source_lines(*s));
        },
        Presence::Unknown(e) => {
            let mut m = "FAIL: Cannot stat ".to_owned();
            m.append(s.path.as_str());
            m.append(": ");
            m.append(e.as_str());
            out.push(m);
            assert(views(out@) =~= before + source_lines(*s));
        },
        Presence::Present => {
            tell_integrity(s, out);
            tell_count(s, out);
            assert(views(out@) =~= before + source_lines(*s));
        },
    }
}

/// Whether the database keeps the gateway from starting.
fn is_blocking(s: &SourceFacts) -> (r: bool)
    ensures
        r == blocks(*s),
{
    match &s.presence {
        Presence::NotFound => same(s.label.as_str(), "main"),
        Presence::Denied | Presence::Unknown(_) => true,
        Presence::Present => {
            let unsound = match &s.integrity {
                Ok(answer) => !same(answer.as_str(), "ok"),
                Err(_) => true,
            };
            unsound || match &s.count {
                Some((_, Err(_))) => true,
                _ => false,
            }
        },
    }
}

/// Run pre-start validation on what is known of the databases and the workspace
/// directory. Returns the exit code (0 if all checks pass, 1 on any failure)
/// and the messages to log.
pub fn run(sources: &Vec<SourceFacts>, workspace: &str, workspace_exists: bool) -> (r: (
    i32,
    Vec<String>,
))
    ensures
        ({
            let c = conclusion(sources@, workspace@, workspace_exists);
            r.0 == (if c.failed {
                1int
            } else {
                0
            }) && views(r.1@) == c.lines
        }),
{
    let mut failed = false;
    let mut rows = "rows=?".to_owned();
    let mut out: Vec<String> = Vec::new();
    assert(views(out@) =~= Seq::<Seq<char>>::empty());
    let mut i: usize = 0;
    while i < sources.len()
        invariant
            i <= sources@.len(),
            views(out@) == found(sources@, i as int).lines,
            failed == found(sources@, i as int).failed,
            rows@ == found(sources@, i as int).rows,
        decreases sources@.len() - i,
    {
        let s = &sources[i];
        tell_source(s, &mut out);
        failed = failed || is_blocking(s);
        if let Presence::Present = &s.presence {
            if let Some((_, Ok(n))) = &s.count {
                if same(s.label.as_str(), "main") {
                    rows = "rows=".to_owned();
                    rows.append(show_signed(*n).as_str());
                }
            }
        }
        i += 1;
    }
    let ghost lines0 = views(out@);
    let ghost lines1 = if workspace_exists {
        lines0
    } else {
        lines0.push("FAIL: Workspace directory missing: "@ + workspace@)
    };
    if !workspace_exists {
        let mut m = "FAIL: Workspace directory missing: ".to_owned();
        m.append(workspace);
        out.push(m);
        failed = true;
        assert(views(out@) =~= lines1);
    }
    if failed {
        out.push("BLOCKED: Gateway start prevented due to validation failures".to_owned());
        assert(views(out@) =~= conclusion(sources@, workspace@, workspace_exists).lines);
        (1, out)
    } else {
        let mut m = "OK: Pre-start validation passed (".to_owned();
        m.append(rows.as_str());
        m.append(")");
        out.push(m);
        assert(views(out@) =~= conclusion(sources@, workspace@, workspace_exists).lines);
        (0, out)
    }
}

/// Letters, digits and `_` alone.
pub open spec fn is_table_name(s: Seq<char>) -> bool {
    forall|i: int| 0 <= i < s.len() ==> is_alphanumeric(#[trigger] s[i]) || s[i] == '_'
}

/// The statement that counts the rows of `table`.
pub fn count_table_rows(table: &str) -> (r: Result<String, String>)
    ensures
        match r {
            Ok(sql) => is_table_name(table@) && sql@ == "SELECT COUNT(*) FROM "@ + table@ + ";"@,
            Err(e) => !is_table_name(table@) && e@ == "invalid table name: "@ + table@,
        },
{
    let v = chars_of(table);
    let mut i: usize = 0;
    while i < v.len()
        invariant
            v@ == table@,
            i <= v@.len(),
            forall|k: int| 0 <= k < i ==> is_alphanumeric(#[trigger] table@[k]) || table@[k] == '_',
        decreases v@.len() - i,
    {
        if !(alphanumeric(v[i]) || v[i] == '_') {
            assert(!(is_alphanumeric(table@[i as int]) || table@[i as int] == '_'));
            let mut e = "invalid table name: ".to_owned();
            e.append(table);
            return Err(e);
        }
        i += 1;
    }
    let mut sql = "SELECT COUNT(*) FROM ".to_owned();
    sql.append(table);
    sql.append(";");
    Ok(sql)
}

/// The gateway may start only where no database blocks it and the workspace exists.
pub proof fn law_any_failure_blocks(
    sources: Seq<SourceFacts>,
    workspace: Seq<char>,
    exists_dir: bool,
    i: int,
)
    requires
        0 <= i < sources.len(),
        blocks(sources[i]),
    ensures
        conclusion(sources, workspace, exists_dir).failed,
{
    lemma_failure_stays(sources, i, sources.len() as int);
}

/// A failure found stays found.
proof fn lemma_failure_stays(sources: Seq<SourceFacts>, i: int, n: int)
    requires
        0 <= i < n <= sources.len(),
        blocks(sources[i]),
    ensures
        found(sources, n).failed,
    decreases n,
{
    if i < n - 1 {
        lemma_failure_stays(sources, i, n - 1);
    }
}

/// What keeps the gateway from starting: a main database that is missing, any
/// database that cannot be reached or looked at, one whose integrity check did
/// not answer `ok`, and one whose rows cannot be counted. A missing database
/// that is optional does not, and neither does an empty one.
pub proof fn law_what_blocks(s: SourceFacts)
    ensures
        s.presence is NotFound ==> (blocks(s) <==> s.label@ == "main"@),
        s.presence is Denied || s.presence is Unknown ==> blocks(s),
        s.presence is Present && s.integrity is Err ==> blocks(s),
        s.presence is Present && (s.integrity matches Ok(answer) && answer@ != "ok"@) ==> blocks(s),
        s.presence is Present && (s.count matches Some(c) && c.1 is Err) ==> blocks(s),
        s.presence is Present && (s.integrity matches Ok(answer) && answer@ == "ok"@) && (s.count
            is None || (s.count matches Some(c) && c.1 is Ok)) ==> !blocks(s),
{
}

/// A line reports a failure.
pub open spec fn is_failure(l: Seq<char>) -> bool {
    l.len() > 5 && l[0] == 'F' && l[1] == 'A' && l[2] == 'I' && l[3] == 'L' && l[4] == ':'
}

/// A database keeps the gateway from starting exactly where a failure is said
/// of it.
pub proof fn law_failures_are_said(s: SourceFacts)
    ensures
        blocks(s) <==> exists|i: int|
            0 <= i < source_lines(s).len() && is_failure(#[trigger] source_lines(s)[i]),
{
    reveal_strlit("FAIL: ");
    reveal_strlit("FAIL: Cannot open ");
    reveal_strlit("FAIL: Cannot query ");
    reveal_strlit("FAIL: Cannot stat ");
    reveal_strlit("OK: ");
    reveal_strlit("WARNING: ");
    let ls = source_lines(s);
    if s.presence is Present {
        let (a, b) = (integrity_lines(s), count_lines(s));
        assert(ls == a + b);
        if a.len() > 0 {
            assert(ls[0] == a[0]);
            assert(is_failure(ls[0]));
        }
        if b.len() > 0 {
            assert(ls[a.len() as int] == b[0]);
            if s.count matches Some((_, Err(_))) {
                assert(is_failure(ls[a.len() as int]));
            } else {
                assert(!is_failure(b[0]));
            }
        }
        assert forall|i: int| 0 <= i < ls.len() && is_failure(#[trigger] ls[i]) implies blocks(s) by {
            if i >= a.len() {
                assert(ls[i] == b[i - a.len()]);
            }
        }
    } else {
        assert(ls.len() == 1);
        if blocks(s) {
            assert(is_failure(ls[0]));
        } else {
            assert(!is_failure(ls[0]));
        }
    }
}

/// The gateway may start exactly where no database blocks it and the workspace
/// exists, and the last line says which.
pub proof fn law_sound_data_may_start(
    sources: Seq<SourceFacts>,
    workspace: Seq<char>,
    exists_dir: bool,
)
    ensures
        ({
            let c = conclusion(sources, workspace, exists_dir);
            &&& c.failed <==> !exists_dir || exists|i: int|
                0 <= i < sources.len() && blocks(#[trigger] sources[i])
            &&& c.failed <==> c.lines.last()[0] == 'B'
            &&& !c.failed <==> c.lines.last()[0] == 'O'
        }),
{
    reveal_strlit("BLOCKED: Gateway start prevented due to validation failures");
    reveal_strlit("OK: Pre-start validation passed (");
    lemma_failed_exactly(sources, sources.len() as int);
}

/// A failure comes from a database that blocks.
proof fn lemma_failed_exactly(sources: Seq<SourceFacts>, n: int)
    requires
        0 <= n <= sources.len(),
    ensures
        found(sources, n).failed <==> exists|i: int| 0 <= i < n && blocks(#[trigger] sources[i]),
    decreases n,
{
    if n > 0 {
        lemma_failed_exactly(sources, n - 1);
        if blocks(sources[n - 1]) {
            assert(found(sources, n).failed);
        }
    }
}

/// Everything that is said of the databases is said, in their order: what is
/// said of two lists in a row is what is said of each.
pub proof fn law_everything_is_said(first: Seq<SourceFacts>, s: SourceFacts)
    ensures
        found(first.push(s), first.len() as int + 1).lines == found(first, first.len() as int).lines
            + source_lines(s),
        found(seq![s], 1).lines == source_lines(s),
{
    reveal_with_fuel(found, 2);
    lemma_found_in_longer(first, s, first.len() as int);
    assert(Seq::<Seq<char>>::empty() + source_lines(s) =~= source_lines(s));
}

/// What follows does not change what is found before.
proof fn lemma_found_in_longer(first: Seq<SourceFacts>, s: SourceFacts, n: int)
    requires
        0 <= n <= first.len(),
    ensures
        found(first.push(s), n) == found(first, n),
    decreases n,
{
    if n > 0 {
        lemma_found_in_longer(first, s, n - 1);
        assert(first.push(s)[n - 1] == first[n - 1]);
    }
}

/// An empty table is warned of, and one with rows is good.
pub proof fn law_empty_tables_are_warned_of(s: SourceFacts)
    ensures
        s.count matches Some((_, Ok(n))) ==> count_lines(s).len() == 1 && (n == 0 <==> count_lines(
            s,
        )[0][0] == 'W') && (n != 0 <==> count_lines(s)[0][0] == 'O'),
        s.count matches Some((_, Err(_))) ==> count_lines(s).len() == 1 && count_lines(s)[0][0]
            == 'F',
        s.count is None ==> count_lines(s).len() == 0,
{
    reveal_strlit("WARNING: ");
    reveal_strlit("OK: ");
    reveal_strlit("FAIL: Cannot query ");
}

} // verus!
