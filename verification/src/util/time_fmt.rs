//! Points in time, and how they read.

use crate::util::text::{decimal, is_digit, join, joined, lemma_decimal_reads_back, show, views};
use vstd::prelude::*;

verus! {

/// A clock reading: whole seconds and the nanoseconds beyond them.
#[derive(Clone, Copy, Debug, PartialEq, Eq, Structural)]
pub struct Timestamp {
    pub secs: u64,
    pub nanos: u32,
}

impl Timestamp {
    /// The reading in nanoseconds.
    pub open spec fn nanoseconds(self) -> int {
        self.secs * 1_000_000_000 + self.nanos
    }

    /// The nanoseconds from `earlier` to this reading.
    pub open spec fn since(self, earlier: Timestamp) -> int {
        self.nanoseconds() - earlier.nanoseconds()
    }

    /// The whole seconds from `earlier` to this reading; none where it is not later.
    pub open spec fn waited(self, earlier: Timestamp) -> int {
        if self.since(earlier) <= 0 {
            0
        } else {
            self.since(earlier) / 1_000_000_000
        }
    }

    /// A reading on the second.
    pub fn from_secs(secs: u64) -> (r: Self)
        ensures
            r.secs == secs,
            r.nanos == 0,
    {
        Timestamp { secs, nanos: 0 }
    }

    /// The nanoseconds from `earlier` to this reading.
    pub fn nanos_since(&self, earlier: &Timestamp) -> (r: i128)
        ensures
            r == self.since(*earlier),
    {
        (self.secs as i128 * 1_000_000_000 + self.nanos as i128) - (earlier.secs as i128
            * 1_000_000_000 + earlier.nanos as i128)
    }

    /// Whether more than `secs` seconds passed from `earlier` to this reading.
    pub fn more_than(&self, earlier: &Timestamp, secs: u64) -> (r: bool)
        ensures
            r == (self.since(*earlier) > secs * 1_000_000_000),
    {
        self.nanos_since(earlier) > secs as i128 * 1_000_000_000
    }

    /// Whether less than `secs` seconds passed from `earlier` to this reading.
    pub fn less_than(&self, earlier: &Timestamp, secs: u64) -> (r: bool)
        ensures
            r == (self.since(*earlier) < secs * 1_000_000_000),
    {
        self.nanos_since(earlier) < secs as i128 * 1_000_000_000
    }

    /// The whole seconds from `earlier` to this reading; none where it is not later.
    pub fn secs_waited(&self, earlier: &Timestamp) -> (r: u128)
        ensures
            r == self.waited(*earlier),
    {
        let d: i128 = self.nanos_since(earlier);
        if d <= 0 {
            0
        } else {
            (d / 1_000_000_000) as u128
        }
    }
}

/// The whole seconds in a span of nanoseconds, rounded toward zero.
pub open spec fn whole_secs(nanos: int) -> int {
    if nanos < 0 {
        -((-nanos) / 1_000_000_000)
    } else {
        nanos / 1_000_000_000
    }
}

/// How long ago something was that lies `delta` whole seconds back.
pub open spec fn ago_text(delta: int) -> Seq<char> {
    if delta < 0 {
        "in the future"@
    } else if delta < 60 {
        decimal(delta as nat) + "s ago"@
    } else if delta < 3600 {
        decimal((delta / 60) as nat) + "m ago"@
    } else if delta < 86400 {
        decimal((delta / 3600) as nat) + "h "@ + decimal((delta % 3600 / 60) as nat) + "m ago"@
    } else {
        decimal((delta / 86400) as nat) + "d "@ + decimal((delta % 86400 / 3600) as nat)
            + "h ago"@
    }
}

/// The whole seconds from `ts` to `now`.
pub open spec fn elapsed(ts: Timestamp, now: Timestamp) -> int {
    whole_secs(now.since(ts))
}

/// How long before `now` the time `ts` was: "Xs ago", "Xm ago", etc.
pub fn fmt_ago_at(ts: &Timestamp, now: &Timestamp) -> (r: String)
    ensures
        r@ == ago_text(elapsed(*ts, *now)),
{
    let d: i128 = now.nanos_since(ts);
    if d <= -1_000_000_000 {
        assert(whole_secs(d as int) < 0) by {
            assert((-d) / 1_000_000_000 >= 1);
        }
        return "in the future".to_owned();
    }
    if d < 0 {
        assert((-d) / 1_000_000_000 == 0);
        let mut r = show(0);
        r.append("s ago");
        return r;
    }
    let delta: u128 = (d / 1_000_000_000) as u128;
    assert(delta == whole_secs(d as int));
    assert(delta <= 18446744073709551619) by {
        assert(d <= 18446744073709551615 * 1_000_000_000 + 4294967295);
    }
    if delta < 60 {
        let mut r = show(delta as u64);
        r.append("s ago");
        r
    } else if delta < 3600 {
        let mut r = show((delta / 60) as u64);
        r.append("m ago");
        r
    } else if delta < 86400 {
        let mut r = show((delta / 3600) as u64);
        r.append("h ");
        r.append(show((delta % 3600 / 60) as u64).as_str());
        r.append("m ago");
        r
    } else {
        let mut r = show((delta / 86400) as u64);
        r.append("d ");
        r.append(show((delta % 86400 / 3600) as u64).as_str());
        r.append("h ago");
        r
    }
}

/// Format a UNIX timestamp as "Xs ago", "Xm ago", etc.
pub fn fmt_ago(ts: &Timestamp) -> (r: String)
    ensures
        exists|now: Timestamp| r@ == ago_text(#[trigger] elapsed(*ts, now)),
{
    let now = now_epoch();
    fmt_ago_at(ts, &now)
}

/// `n` and its unit, in the plural unless `n` is 1.
pub open spec fn counted(n: nat, unit: Seq<char>) -> Seq<char> {
    if n == 1 {
        decimal(n) + " "@ + unit
    } else {
        decimal(n) + " "@ + unit + "s"@
    }
}

/// `n` and its unit, in the plural unless `n` is 1.
fn count(n: u64, unit: &str) -> (r: String)
    ensures
        r@ == counted(n as nat, unit@),
{
    let mut r = show(n);
    r.append(" ");
    r.append(unit);
    if n != 1 {
        r.append("s");
    }
    r
}

/// The parts of an uptime that are not zero: days, hours, minutes. Minutes
/// stand there too where nothing else does.
pub open spec fn uptime_parts(seconds: int) -> Seq<Seq<char>> {
    let d = (seconds / 86400) as nat;
    let h = (seconds % 86400 / 3600) as nat;
    let m = (seconds % 3600 / 60) as nat;
    let days = if d > 0 {
        seq![counted(d, "day"@)]
    } else {
        Seq::empty()
    };
    let hours = if h > 0 {
        days.push(counted(h, "hr"@))
    } else {
        days
    };
    if m > 0 || hours.len() == 0 {
        hours.push(counted(m, "min"@))
    } else {
        hours
    }
}

/// Format seconds as human-readable uptime: "X days Y hrs Z mins"
pub fn fmt_uptime(seconds: u64) -> (r: String)
    ensures
        r@ == joined(uptime_parts(seconds as int), " "@),
{
    let d: u64 = seconds / 86400;
    let h: u64 = seconds % 86400 / 3600;
    let m: u64 = seconds % 3600 / 60;
    let mut parts: Vec<String> = Vec::new();
    if d > 0 {
        parts.push(count(d, "day"));
    }
    if h > 0 {
        parts.push(count(h, "hr"));
    }
    if m > 0 || parts.len() == 0 {
        parts.push(count(m, "min"));
    }
    assert(views(parts@) =~= uptime_parts(seconds as int));
    join(&parts, " ")
}

/// The counts and units in an uptime.
spec fn uptime_counts(seconds: int) -> Seq<(nat, Seq<char>)> {
    let d = (seconds / 86400) as nat;
    let h = (seconds % 86400 / 3600) as nat;
    let m = (seconds % 3600 / 60) as nat;
    let days = if d > 0 {
        seq![(d, "day"@)]
    } else {
        Seq::empty()
    };
    let hours = if h > 0 {
        days.push((h, "hr"@))
    } else {
        days
    };
    if m > 0 || hours.len() == 0 {
        hours.push((m, "min"@))
    } else {
        hours
    }
}

/// Counts with their units.
spec fn counted_all(l: Seq<(nat, Seq<char>)>) -> Seq<Seq<char>> {
    l.map_values(|e: (nat, Seq<char>)| counted(e.0, e.1))
}

/// A unit of an uptime.
spec fn is_unit(u: Seq<char>) -> bool {
    u == "day"@ || u == "hr"@ || u == "min"@
}

/// A unit as it stands behind its count.
spec fn unit_word(n: nat, unit: Seq<char>) -> Seq<char> {
    if n == 1 {
        unit
    } else {
        unit + "s"@
    }
}

/// What follows the first part of a joined list.
spec fn tail_text(parts: Seq<Seq<char>>) -> Seq<char> {
    if parts.len() <= 1 {
        Seq::empty()
    } else {
        " "@ + joined(parts.drop_first(), " "@)
    }
}

/// A joined list is its first part and what follows.
proof fn lemma_joined_first(parts: Seq<Seq<char>>)
    requires
        parts.len() > 0,
    ensures
        joined(parts, " "@) == parts[0] + tail_text(parts),
    decreases parts.len(),
{
    if parts.len() == 1 {
        assert(parts[0] + Seq::<char>::empty() =~= parts[0]);
    } else if parts.len() == 2 {
        reveal_with_fuel(joined, 2);
        assert(parts.drop_last() =~= seq![parts[0]]);
        assert(parts.drop_first() =~= seq![parts[1]]);
        assert(joined(parts, " "@) =~= parts[0] + (" "@ + parts[1]));
    } else {
        let front = parts.drop_last();
        let back = parts.drop_first();
        lemma_joined_first(front);
        assert(front.drop_first() =~= back.drop_last());
        assert(front[0] == parts[0]);
        assert(back.last() == parts.last());
        assert(joined(parts, " "@) =~= parts[0] + tail_text(parts));
    }
}

/// Two numbers, each before a blank, and what follows it, are told apart.
proof fn lemma_number_then_blank(a: nat, x: Seq<char>, b: nat, y: Seq<char>)
    requires
        decimal(a).push(' ') + x == decimal(b).push(' ') + y,
    ensures
        a == b,
        x == y,
{
    lemma_decimal_reads_back(a);
    lemma_decimal_reads_back(b);
    let (da, db) = (decimal(a), decimal(b));
    let s = da.push(' ') + x;
    let t = db.push(' ') + y;
    if da.len() < db.len() {
        assert(s[da.len() as int] == ' ');
        assert(t[da.len() as int] == db[da.len() as int]);
        assert(is_digit(db[da.len() as int]));
    } else if db.len() < da.len() {
        assert(t[db.len() as int] == ' ');
        assert(s[db.len() as int] == da[db.len() as int]);
        assert(is_digit(da[db.len() as int]));
    }
    assert(s.take(da.len() as int) =~= da);
    assert(t.take(db.len() as int) =~= db);
    assert(s.skip(da.len() as int + 1) =~= x);
    assert(t.skip(db.len() as int + 1) =~= y);
}

/// Two units, each behind the same count, and what follows them, are told apart.
proof fn lemma_unit_then_rest(n: nat, u: Seq<char>, x: Seq<char>, v: Seq<char>, y: Seq<char>)
    requires
        is_unit(u),
        is_unit(v),
        unit_word(n, u) + x == unit_word(n, v) + y,
    ensures
        u == v,
        x == y,
{
    reveal_strlit("day");
    reveal_strlit("hr");
    reveal_strlit("min");
    let s = unit_word(n, u) + x;
    let t = unit_word(n, v) + y;
    assert(s[0] == u[0]);
    assert(t[0] == v[0]);
    assert(u == v);
    assert(s.skip(unit_word(n, u).len() as int) =~= x);
    assert(t.skip(unit_word(n, v).len() as int) =~= y);
}

/// A count with its unit is the number, a blank, and the unit.
proof fn lemma_counted_is(n: nat, u: Seq<char>, rest: Seq<char>)
    ensures
        counted(n, u) + rest == decimal(n).push(' ') + (unit_word(n, u) + rest),
{
    reveal_strlit(" ");
    assert(counted(n, u) + rest =~= decimal(n).push(' ') + (unit_word(n, u) + rest));
}

/// Counts with their units can be read back from their text.
proof fn lemma_counts_read_back(a: Seq<(nat, Seq<char>)>, b: Seq<(nat, Seq<char>)>)
    requires
        a.len() > 0,
        b.len() > 0,
        forall|i: int| 0 <= i < a.len() ==> is_unit((#[trigger] a[i]).1),
        forall|i: int| 0 <= i < b.len() ==> is_unit((#[trigger] b[i]).1),
        joined(counted_all(a), " "@) == joined(counted_all(b), " "@),
    ensures
        a == b,
    decreases a.len(),
{
    reveal_strlit(" ");
    let (p, q) = (counted_all(a), counted_all(b));
    lemma_joined_first(p);
    lemma_joined_first(q);
    lemma_counted_is(a[0].0, a[0].1, tail_text(p));
    lemma_counted_is(b[0].0, b[0].1, tail_text(q));
    lemma_number_then_blank(
        a[0].0,
        unit_word(a[0].0, a[0].1) + tail_text(p),
        b[0].0,
        unit_word(b[0].0, b[0].1) + tail_text(q),
    );
    lemma_unit_then_rest(a[0].0, a[0].1, tail_text(p), b[0].1, tail_text(q));
    assert(a[0] == b[0]);
    if a.len() > 1 {
        assert(tail_text(p).len() > 0);
        assert(b.len() > 1);
        let (ra, rb) = (a.drop_first(), b.drop_first());
        assert(p.drop_first() =~= counted_all(ra));
        assert(q.drop_first() =~= counted_all(rb));
        assert(tail_text(p).skip(1) =~= joined(counted_all(ra), " "@));
        assert(tail_text(q).skip(1) =~= joined(counted_all(rb), " "@));
        assert forall|i: int| 0 <= i < ra.len() implies is_unit((#[trigger] ra[i]).1) by {
            assert(ra[i] == a[i + 1]);
        }
        assert forall|i: int| 0 <= i < rb.len() implies is_unit((#[trigger] rb[i]).1) by {
            assert(rb[i] == b[i + 1]);
        }
        lemma_counts_read_back(ra, rb);
        assert(a =~= seq![a[0]] + ra);
        assert(b =~= seq![b[0]] + rb);
    } else {
        assert(tail_text(p).len() == 0);
        assert(b.len() == 1);
        assert(a =~= b);
    }
}

/// The counts of an uptime tell its days, hours and minutes.
proof fn lemma_counts_tell(s: int, t: int)
    requires
        0 <= s,
        0 <= t,
        uptime_counts(s) == uptime_counts(t),
    ensures
        s / 86400 == t / 86400,
        s % 86400 / 3600 == t % 86400 / 3600,
        s % 3600 / 60 == t % 3600 / 60,
{
    reveal_strlit("day");
    reveal_strlit("hr");
    reveal_strlit("min");
    let (a, b) = (uptime_counts(s), uptime_counts(t));
    assert("day"@ != "hr"@ && "day"@ != "min"@ && "hr"@ != "min"@) by {
        assert("day"@[0] == 'd' && "hr"@[0] == 'h' && "min"@[0] == 'm');
    }
    assert(a.len() > 0 && a[0] == b[0]);
    if a.len() > 1 {
        assert(a[1] == b[1]);
    }
    if a.len() > 2 {
        assert(a[2] == b[2]);
    }
}

/// An uptime tells its minutes and loses only the seconds beyond them: two
/// uptimes read the same exactly where they agree in whole minutes.
pub proof fn law_uptime_tells_minutes(s: u64, t: u64)
    ensures
        (joined(uptime_parts(s as int), " "@) == joined(uptime_parts(t as int), " "@)) <==> s / 60
            == t / 60,
{
    let (a, b) = (uptime_counts(s as int), uptime_counts(t as int));
    assert(counted_all(a) =~= uptime_parts(s as int));
    assert(counted_all(b) =~= uptime_parts(t as int));
    if joined(uptime_parts(s as int), " "@) == joined(uptime_parts(t as int), " "@) {
        lemma_counts_read_back(a, b);
        lemma_counts_tell(s as int, t as int);
    }
}

/// The wall clock, as the time since the UNIX epoch: `SystemTime::now` and
/// `SystemTime::duration_since`, zero where the clock stands before the epoch.
/// Claimed is only that the nanoseconds stay below one second.
#[verifier::external_body]
pub fn now_epoch() -> (r: Timestamp)
    ensures
        r.nanos < 1_000_000_000,
{
    let d = std::time::SystemTime::now().duration_since(std::time::UNIX_EPOCH).unwrap_or_default();
    Timestamp { secs: d.as_secs(), nanos: d.subsec_nanos() }
}

/// The monotonic clock, read with `nix::time::clock_gettime`: its seconds and
/// nanoseconds; `None` where the system refuses it. Nothing is claimed of them.
#[verifier::external_body]
fn read_monotonic() -> (r: Option<(i64, i64)>) {
    nix::time::clock_gettime(nix::time::ClockId::CLOCK_MONOTONIC).ok().map(
        |t| (t.tv_sec() as i64, t.tv_nsec() as i64),
    )
}

/// The monotonic clock, for measuring how long something takes.
pub fn monotonic_now() -> (r: Timestamp)
    ensures
        exists|raw: Option<(i64, i64)>| r == #[trigger] reading_of(raw),
        r.nanos < 1_000_000_000,
{
    let raw = read_monotonic();
    clock_reading(raw)
}

/// The reading in the seconds and nanoseconds that a clock gave. Zero where it
/// gave none, or gave what is no time since its start: negative seconds, or
/// nanoseconds outside one second.
pub open spec fn reading_of(raw: Option<(i64, i64)>) -> Timestamp {
    match raw {
        Some((secs, nanos)) => if secs >= 0 && 0 <= nanos < 1_000_000_000 {
            Timestamp { secs: secs as u64, nanos: nanos as u32 }
        } else {
            Timestamp { secs: 0, nanos: 0 }
        },
        None => Timestamp { secs: 0, nanos: 0 },
    }
}

/// The reading in the seconds and nanoseconds that a clock gave, if any.
pub fn clock_reading(raw: Option<(i64, i64)>) -> (r: Timestamp)
    ensures
        r == reading_of(raw),
{
    match raw {
        Some((secs, nanos)) => if secs >= 0 && 0 <= nanos && nanos < 1_000_000_000 {
            Timestamp { secs: secs as u64, nanos: nanos as u32 }
        } else {
            Timestamp { secs: 0, nanos: 0 }
        },
        None => Timestamp { secs: 0, nanos: 0 },
    }
}

/// The age is told by its two largest units: days and hours, hours and minutes,
/// minutes alone, or seconds alone.
pub proof fn law_age_is_told_by_its_largest_units(d: nat, h: nat, m: nat, s: nat)
    requires
        h < 24,
        m < 60,
        s < 60,
    ensures
        ({
            let text = ago_text((((d * 24 + h) * 60 + m) * 60 + s) as int);
            &&& d > 0 ==> text == decimal(d) + "d "@ + decimal(h) + "h ago"@
            &&& d == 0 && h > 0 ==> text == decimal(h) + "h "@ + decimal(m) + "m ago"@
            &&& d == 0 && h == 0 && m > 0 ==> text == decimal(m) + "m ago"@
            &&& d == 0 && h == 0 && m == 0 ==> text == decimal(s) + "s ago"@
        }),
{
    lemma_parts_of_seconds(d as int, h as int, m as int, s as int);
}

/// Days, hours and minutes are what division by their lengths gives back.
proof fn lemma_parts_of_seconds(d: int, h: int, m: int, s: int)
    requires
        0 <= d,
        0 <= h < 24,
        0 <= m < 60,
        0 <= s < 60,
    ensures
        ({
            let t = ((d * 24 + h) * 60 + m) * 60 + s;
            &&& t / 86400 == d
            &&& t % 86400 / 3600 == h
            &&& t % 3600 / 60 == m
            &&& d > 0 <==> t >= 86400
            &&& d > 0 || h > 0 <==> t >= 3600
            &&& d > 0 || h > 0 || m > 0 <==> t >= 60
            &&& d == 0 ==> t / 3600 == h
            &&& d == 0 && h == 0 ==> t / 60 == m
            &&& d == 0 && h == 0 && m == 0 ==> t == s
        }),
{
    let t = ((d * 24 + h) * 60 + m) * 60 + s;
    assert(t == d * 86400 + h * 3600 + m * 60 + s);
    assert(t % 86400 == h * 3600 + m * 60 + s);
    assert(t % 3600 == m * 60 + s);
}

/// The uptime is told by its days, hours and minutes, each where there are any,
/// and by no minutes where there is nothing else.
pub proof fn law_uptime_is_told_in_parts(d: nat, h: nat, m: nat, s: nat)
    requires
        h < 24,
        m < 60,
        s < 60,
    ensures
        ({
            let parts = uptime_parts((((d * 24 + h) * 60 + m) * 60 + s) as int);
            let days = if d > 0 {
                seq![counted(d, "day"@)]
            } else {
                Seq::empty()
            };
            let hours = if h > 0 {
                seq![counted(h, "hr"@)]
            } else {
                Seq::empty()
            };
            let minutes = if m > 0 || (d == 0 && h == 0) {
                seq![counted(m, "min"@)]
            } else {
                Seq::empty()
            };
            parts == days + hours + minutes
        }),
        counted(1, "day"@) == decimal(1) + " "@ + "day"@,
        d != 1 ==> counted(d, "day"@) == decimal(d) + " "@ + "day"@ + "s"@,
{
    let seconds = ((d * 24 + h) * 60 + m) * 60 + s;
    lemma_parts_of_seconds(d as int, h as int, m as int, s as int);
    let days = if d > 0 {
        seq![counted(d, "day"@)]
    } else {
        Seq::empty()
    };
    let hours = if h > 0 {
        seq![counted(h, "hr"@)]
    } else {
        Seq::empty()
    };
    let minutes = if m > 0 || (d == 0 && h == 0) {
        seq![counted(m, "min"@)]
    } else {
        Seq::empty()
    };
    assert(uptime_parts(seconds as int) =~= days + hours + minutes);
}

} // verus!
