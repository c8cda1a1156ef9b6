//! Texts with places to fill in.

use crate::util::text::{chars_of, occurs_at, stands_at};
use vstd::prelude::*;

verus! {

/// Marks in a text, and what stands in their place.
pub type Marks<'a> = Vec<(&'a str, &'a str)>;

/// The views of marks.
pub open spec fn marks(v: Seq<(&str, &str)>) -> Seq<(Seq<char>, Seq<char>)> {
    Seq::new(v.len(), |i: int| (v[i].0@, v[i].1@))
}

/// The first mark at or after number `k` that stands in `t` at position `i`.
pub open spec fn mark_at(t: Seq<char>, m: Seq<(Seq<char>, Seq<char>)>, i: int, k: int) -> Option<int>
    decreases m.len() - k,
{
    if k < 0 || k >= m.len() {
        None
    } else if m[k].0.len() > 0 && occurs_at(t, m[k].0, i) {
        Some(k)
    } else {
        mark_at(t, m, i, k + 1)
    }
}

/// The text from position `i` on, with every mark replaced.
pub open spec fn filled_from(t: Seq<char>, m: Seq<(Seq<char>, Seq<char>)>, i: int) -> Seq<char>
    decreases t.len() - i,
{
    if i < 0 || i >= t.len() {
        Seq::empty()
    } else {
        match mark_at(t, m, i, 0) {
            Some(k) => if 0 < m[k].0.len() <= t.len() - i {
                m[k].1 + filled_from(t, m, i + m[k].0.len())
            } else {
                Seq::empty()
            },
            None => seq![t[i]] + filled_from(t, m, i + 1),
        }
    }
}

/// The text with every mark replaced. What is filled in is not searched again.
pub open spec fn filled(t: Seq<char>, m: Seq<(Seq<char>, Seq<char>)>) -> Seq<char> {
    filled_from(t, m, 0)
}

/// The first mark that stands in `v` at position `i`: its number and its length.
fn find_mark(v: &Vec<char>, m: &Marks, i: usize) -> (r: Option<(usize, usize)>)
    ensures
        match r {
            Some((k, len)) => k < m@.len() && mark_at(v@, marks(m@), i as int, 0) == Some(k as int)
                && len == m@[k as int].0@.len() && len > 0 && i + len <= v@.len(),
            None => mark_at(v@, marks(m@), i as int, 0) is None,
        },
{
    let mut k: usize = 0;
    while k < m.len()
        invariant
            k <= m@.len(),
            mark_at(v@, marks(m@), i as int, 0) == mark_at(v@, marks(m@), i as int, k as int),
        decreases m@.len() - k,
    {
        let p = chars_of(m[k].0);
        assert(marks(m@)[k as int].0 == m@[k as int].0@);
        if p.len() > 0 && stands_at(v, &p, i) {
            return Some((k, p.len()));
        }
        k += 1;
    }
    None
}

/// The text with every mark replaced.
pub fn fill(t: &str, m: Marks) -> (r: String)
    ensures
        r@ == filled(t@, marks(m@)),
{
    let v = chars_of(t);
    let ghost ms = marks(m@);
    let mut r = String::new();
    let mut i: usize = 0;
    assert(Seq::<char>::empty() + filled_from(t@, ms, 0) =~= filled(t@, ms));
    while i < v.len()
        invariant
            v@ == t@,
            ms == marks(m@),
            i <= v@.len(),
            r@ + filled_from(t@, ms, i as int) == filled(t@, ms),
        decreases v@.len() - i,
    {
        let ghost before = r@;
        match find_mark(&v, &m, i) {
            Some((k, len)) => {
                assert(ms[k as int] == (m@[k as int].0@, m@[k as int].1@));
                r.append(m[k].1);
                proof {
                    let rest = filled_from(t@, ms, i + len);
                    assert(before + (ms[k as int].1 + rest) =~= (before + ms[k as int].1) + rest);
                }
                i += len;
            },
            None => {
                r.push(v[i]);
                proof {
                    let rest = filled_from(t@, ms, i + 1);
                    assert(before + (seq![v@[i as int]] + rest) =~= before.push(v@[i as int])
                        + rest);
                }
                i += 1;
            },
        }
    }
    assert(r@ + Seq::<char>::empty() =~= r@);
    r
}

/// A template in which no mark occurs is kept as it is.
pub proof fn law_text_without_marks_is_kept(t: Seq<char>, m: Seq<(Seq<char>, Seq<char>)>, i: int)
    requires
        0 <= i <= t.len(),
        forall|j: int, k: int|
            0 <= j < t.len() && 0 <= k < m.len() ==> m[k].0.len() == 0 || !(#[trigger] occurs_at(
                t,
                m[k].0,
                j,
            )),
    ensures
        filled_from(t, m, i) == t.skip(i),
    decreases t.len() - i,
{
    if i < t.len() {
        law_text_without_marks_is_kept(t, m, i + 1);
        lemma_no_mark_at(t, m, i, 0);
        assert(seq![t[i]] + t.skip(i + 1) =~= t.skip(i));
    } else {
        assert(t.skip(i) =~= Seq::<char>::empty());
    }
}

/// Where none of the marks occurs, there is no mark.
proof fn lemma_no_mark_at(t: Seq<char>, m: Seq<(Seq<char>, Seq<char>)>, i: int, k: int)
    requires
        0 <= i < t.len(),
        0 <= k <= m.len(),
        forall|j: int, k: int|
            0 <= j < t.len() && 0 <= k < m.len() ==> m[k].0.len() == 0 || !(#[trigger] occurs_at(
                t,
                m[k].0,
                j,
            )),
    ensures
        mark_at(t, m, i, k) is None,
    decreases m.len() - k,
{
    if k < m.len() {
        lemma_no_mark_at(t, m, i, k + 1);
        assert(m[k].0.len() == 0 || !occurs_at(t, m[k].0, i));
    }
}

/// Where a template begins with a mark, and with none of the marks listed before
/// it, the value of that mark takes its place and the rest is filled by itself.
pub proof fn law_mark_gives_way_to_its_value(
    t: Seq<char>,
    m: Seq<(Seq<char>, Seq<char>)>,
    k: int,
)
    requires
        0 <= k < m.len(),
        m[k].0.len() > 0,
        t.len() >= m[k].0.len(),
        t.take(m[k].0.len() as int) == m[k].0,
        forall|j: int| 0 <= j < k ==> !occurs_at(t, (#[trigger] m[j]).0, 0),
    ensures
        filled(t, m) == m[k].1 + filled(t.skip(m[k].0.len() as int), m),
{
    assert(t.subrange(0, m[k].0.len() as int) =~= t.take(m[k].0.len() as int));
    lemma_first_mark(t, m, 0, k);
    lemma_filled_shifted(t, m, m[k].0.len() as int, 0);
}

/// Where a template begins with no mark, its first character is kept and the
/// rest is filled by itself.
pub proof fn law_other_text_is_kept(t: Seq<char>, m: Seq<(Seq<char>, Seq<char>)>)
    requires
        t.len() > 0,
        forall|j: int| 0 <= j < m.len() ==> !occurs_at(t, (#[trigger] m[j]).0, 0),
    ensures
        filled(t, m) == seq![t[0]] + filled(t.skip(1), m),
{
    lemma_first_mark(t, m, 0, m.len() as int);
    lemma_filled_shifted(t, m, 1, 0);
}

/// The first mark that occurs at the start.
proof fn lemma_first_mark(t: Seq<char>, m: Seq<(Seq<char>, Seq<char>)>, from: int, k: int)
    requires
        0 <= from <= k <= m.len(),
        k < m.len() ==> m[k].0.len() > 0 && occurs_at(t, m[k].0, 0),
        forall|j: int| 0 <= j < k ==> !occurs_at(t, (#[trigger] m[j]).0, 0),
    ensures
        mark_at(t, m, 0, from) == if k < m.len() {
            Some(k)
        } else {
            None
        },
    decreases k - from,
{
    if from < k {
        assert(!occurs_at(t, m[from].0, 0));
        lemma_first_mark(t, m, from + 1, k);
    }
}

/// What lies before does not change how the rest is filled.
proof fn lemma_filled_shifted(t: Seq<char>, m: Seq<(Seq<char>, Seq<char>)>, n: int, i: int)
    requires
        0 <= n,
        0 <= i,
        n + i <= t.len(),
    ensures
        filled_from(t, m, n + i) == filled_from(t.skip(n), m, i),
    decreases t.len() - i,
{
    if n + i < t.len() {
        lemma_mark_shifted(t, m, n, i, 0);
        match mark_at(t.skip(n), m, i, 0) {
            Some(k) => {
                if 0 < m[k].0.len() <= t.len() - n - i {
                    lemma_filled_shifted(t, m, n, i + m[k].0.len());
                }
            },
            None => {
                lemma_filled_shifted(t, m, n, i + 1);
            },
        }
    }
}

/// What lies before does not change which mark occurs.
proof fn lemma_mark_shifted(
    t: Seq<char>,
    m: Seq<(Seq<char>, Seq<char>)>,
    n: int,
    i: int,
    k: int,
)
    requires
        0 <= n,
        0 <= i,
        n + i <= t.len(),
        0 <= k <= m.len(),
    ensures
        mark_at(t, m, n + i, k) == mark_at(t.skip(n), m, i, k),
    decreases m.len() - k,
{
    if k < m.len() {
        lemma_mark_shifted(t, m, n, i, k + 1);
        let p = m[k].0;
        if n + i + p.len() <= t.len() {
            assert(t.subrange(n + i, n + i + p.len()) =~= t.skip(n).subrange(i, i + p.len()));
        }
    }
}

} // verus!
