//! Elapsed times as `ps` prints them.

use crate::util::text::{
    cut, decimal, lemma_decimal_reads_back, lemma_nothing_to_trim, lemma_padded_reads_back,
    lemma_three_pieces, lemma_upto_is, number, padded, parse, pieces, same, split, split_once, trim,
    trim_white, views, Class,
};
use vstd::prelude::*;

verus! {

/// The seconds that `days` and the clock `rest` make: `[HH:]MM:SS`.
pub open spec fn clock_seconds(days: nat, rest: Seq<char>) -> Option<nat> {
    let ps = pieces(rest, ':');
    let max = u64::MAX as nat;
    if ps.len() == 2 {
        match (number(ps[0], max), number(ps[1], max)) {
            (Some(m), Some(s)) => Some(days * 86400 + (m * 60 + s)),
            _ => None,
        }
    } else if ps.len() == 3 {
        match (number(ps[0], max), number(ps[1], max), number(ps[2], max)) {
            (Some(h), Some(m), Some(s)) => Some(days * 86400 + (h * 3600 + m * 60 + s)),
            _ => None,
        }
    } else {
        None
    }
}

/// The seconds of an elapsed time: `[[DD-]HH:]MM:SS`.
pub open spec fn etime_seconds(etime: Seq<char>) -> Option<nat> {
    let t = trim_white(etime);
    if t.len() == 0 || t == "-"@ {
        None
    } else {
        match cut(t, Class::Is('-')) {
            Some((d, rest)) => match number(d, u64::MAX as nat) {
                Some(days) => clock_seconds(days, rest),
                None => None,
            },
            None => clock_seconds(0, t),
        }
    }
}

/// The seconds that `days` and the clock `rest` make.
fn read_clock(days: u64, rest: &str) -> (r: Option<u128>)
    ensures
        match r {
            Some(s) => clock_seconds(days as nat, rest@) == Some(s as nat),
            None => clock_seconds(days as nat, rest@) is None,
        },
{
    let ps = split(rest, ':');
    let n: usize = ps.len();
    assert(forall|i: int| 0 <= i < n ==> views(ps@)[i] == ps@[i]@);
    if n == 2 {
        match (parse(ps[0].as_str(), u64::MAX), parse(ps[1].as_str(), u64::MAX)) {
            (Some(m), Some(s)) => Some(days as u128 * 86400 + (m as u128 * 60 + s as u128)),
            _ => None,
        }
    } else if n == 3 {
        match (
            parse(ps[0].as_str(), u64::MAX),
            parse(ps[1].as_str(), u64::MAX),
            parse(ps[2].as_str(), u64::MAX),
        ) {
            (Some(h), Some(m), Some(s)) => Some(
                days as u128 * 86400 + (h as u128 * 3600 + m as u128 * 60 + s as u128),
            ),
            _ => None,
        }
    } else {
        None
    }
}

/// The seconds of an elapsed time, as many as they may be.
fn read_etime(etime: &str) -> (r: Option<u128>)
    ensures
        match r {
            Some(s) => etime_seconds(etime@) == Some(s as nat),
            None => etime_seconds(etime@) is None,
        },
{
    let t = trim(etime);
    if t.is_empty() || same(t, "-") {
        return None;
    }
    match split_once(t, Class::Is('-')) {
        Some((d, rest)) => match parse(d, u64::MAX) {
            Some(days) => read_clock(days, rest),
            None => None,
        },
        None => read_clock(0, t),
    }
}

/// Whether the seconds of an elapsed time, where it has any, fit in 64 bits.
pub fn is_etime_in_range(etime: &str) -> (r: bool)
    ensures
        r == (etime_seconds(etime@) matches Some(s) ==> s <= u64::MAX),
{
    match read_etime(etime) {
        Some(s) => s <= 18446744073709551615,
        None => true,
    }
}

/// Parse ps `etime` format to seconds.
///
/// Format: `[[DD-]HH:]MM:SS`
/// Examples: "01:23", "1:01:23", "2-01:23:45"
pub fn parse_etime(etime: &str) -> (r: Option<u64>)
    requires
        etime_seconds(etime@) matches Some(s) ==> s <= u64::MAX,
    ensures
        match r {
            Some(s) => etime_seconds(etime@) == Some(s as nat),
            None => etime_seconds(etime@) is None,
        },
{
    match read_etime(etime) {
        Some(s) => Some(s as u64),
        None => None,
    }
}

/// The elapsed time is read as `ps` writes it: minutes and seconds, with hours
/// and then days in front where there are any.
pub proof fn law_elapsed_time_is_read(d: u64, h: u64, m: u64, s: u64)
    ensures
        ({
            let (hh, mm, ss) = (
                padded(h as nat, 2),
                padded(m as nat, 2),
                padded(s as nat, 2),
            );
            &&& etime_seconds(hh.push(':') + mm.push(':') + ss) == Some(
                h as nat * 3600 + m as nat * 60 + s as nat,
            )
            &&& etime_seconds(decimal(d as nat).push('-') + (hh.push(':') + mm.push(':') + ss))
                == Some(d as nat * 86400 + (h as nat * 3600 + m as nat * 60 + s as nat))
        }),
{
    let max = u64::MAX as nat;
    let (hh, mm, ss) = (padded(h as nat, 2), padded(m as nat, 2), padded(s as nat, 2));
    lemma_padded_reads_back(h as nat, 2, max);
    lemma_padded_reads_back(m as nat, 2, max);
    lemma_padded_reads_back(s as nat, 2, max);
    lemma_decimal_reads_back(d as nat);
    let t = hh.push(':') + mm.push(':') + ss;
    lemma_three_pieces(hh, mm, ss, ':');
    reveal_strlit("-");
    assert("-"@.len() == 1);
    assert(t[0] == hh[0] && t.last() == ss.last());
    lemma_nothing_to_trim(t, Class::White);
    lemma_upto_is(t, Class::Is('-'), 0, t.len() as int);
    assert(etime_seconds(t) == clock_seconds(0, t));
    let dd = decimal(d as nat);
    let u = dd.push('-') + t;
    assert(u[0] == dd[0] && u.last() == ss.last());
    lemma_nothing_to_trim(u, Class::White);
    assert forall|j: int| 0 <= j < dd.len() implies !Class::Is('-').holds(#[trigger] u[j]) by {
        assert(u[j] == dd[j]);
    }
    lemma_upto_is(u, Class::Is('-'), 0, dd.len() as int);
    assert(u.take(dd.len() as int) =~= dd);
    assert(u.skip(dd.len() as int + 1) =~= t);
}

} // verus!
