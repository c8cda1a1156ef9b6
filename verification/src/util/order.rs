//! The order of names, and newest-first lists.

use crate::util::text::{chars_of, views};
use vstd::multiset::Multiset;
use vstd::prelude::*;

verus! {

/// `a` comes before `b`, compared character by character from position `i` on;
/// a text comes before those that it begins.
pub open spec fn before_from(a: Seq<char>, b: Seq<char>, i: int) -> bool
    decreases a.len() - i,
{
    if i >= b.len() {
        false
    } else if i < 0 || i >= a.len() {
        true
    } else if a[i] != b[i] {
        a[i] < b[i]
    } else {
        before_from(a, b, i + 1)
    }
}

/// `a` comes before `b` in the order of names.
pub open spec fn before(a: Seq<char>, b: Seq<char>) -> bool {
    before_from(a, b, 0)
}

/// Whether `a` comes before `b` in the order of names.
pub fn comes_before(a: &str, b: &str) -> (r: bool)
    ensures
        r == before(a@, b@),
{
    let x = chars_of(a);
    let y = chars_of(b);
    let mut i: usize = 0;
    while i < x.len() && i < y.len() && x[i] == y[i]
        invariant
            x@ == a@,
            y@ == b@,
            i <= x@.len(),
            i <= y@.len(),
            before(a@, b@) == before_from(a@, b@, i as int),
        decreases x@.len() - i,
    {
        i += 1;
    }
    if i >= y.len() {
        false
    } else if i >= x.len() {
        true
    } else {
        x[i] < y[i]
    }
}

/// The order of names is transitive.
pub proof fn lemma_before_transitive(a: Seq<char>, b: Seq<char>, c: Seq<char>, i: int)
    requires
        0 <= i,
        before_from(a, b, i),
        before_from(b, c, i),
    ensures
        before_from(a, c, i),
    decreases a.len() - i,
{
    if i < a.len() && i < b.len() && i < c.len() && a[i] == b[i] && b[i] == c[i] {
        lemma_before_transitive(a, b, c, i + 1);
    }
}

/// Of two names that share their first `i` characters, one comes first unless
/// they are the same name.
pub proof fn lemma_before_total(a: Seq<char>, b: Seq<char>, i: int)
    requires
        0 <= i,
        i <= a.len(),
        i <= b.len(),
        a.take(i) == b.take(i),
    ensures
        before_from(a, b, i) || before_from(b, a, i) || a == b,
        !(before_from(a, b, i) && before_from(b, a, i)),
    decreases a.len() - i,
{
    if i < a.len() && i < b.len() && a[i] == b[i] {
        assert(a.take(i + 1) =~= a.take(i).push(a[i]));
        assert(b.take(i + 1) =~= b.take(i).push(b[i]));
        lemma_before_total(a, b, i + 1);
    } else if i >= a.len() && i >= b.len() {
        assert(a.take(i) =~= a);
        assert(b.take(i) =~= b);
    }
}

/// No name comes before itself.
pub proof fn lemma_not_before_itself(a: Seq<char>, i: int)
    requires
        0 <= i,
    ensures
        !before_from(a, a, i),
    decreases a.len() - i,
{
    if i < a.len() {
        lemma_not_before_itself(a, i + 1);
    }
}

/// Names in descending order: none comes before a later one.
pub open spec fn descending<T>(s: Seq<(String, T)>) -> bool {
    forall|i: int, j: int| 0 <= i < j < s.len() ==> !before(s[i].0@, s[j].0@)
}

/// `s` holds the entries of `all`, by name, last name first.
pub open spec fn newest_first<T>(all: Seq<(String, T)>, s: Seq<(String, T)>) -> bool {
    descending(s) && s.to_multiset() == all.to_multiset()
}

/// The entries sorted by name, last name first. Where names hold timestamps,
/// that is newest first.
pub fn sort_newest_first<T>(all: Vec<(String, T)>) -> (r: Vec<(String, T)>)
    ensures
        newest_first(all@, r@),
{
    let mut rest = all;
    let mut r: Vec<(String, T)> = Vec::new();
    proof {
        broadcast use vstd::seq_lib::group_to_multiset_ensures;
        assert(r@.to_multiset().add(rest@.to_multiset()) =~= all@.to_multiset());
    }
    while rest.len() > 0
        invariant
            descending(r@),
            r@.to_multiset().add(rest@.to_multiset()) == all@.to_multiset(),
        decreases rest@.len(),
    {
        let ghost rest0 = rest@;
        let ghost r0 = r@;
        let e = rest.pop().unwrap();
        let mut k: usize = r.len();
        while k > 0 && comes_before(r[k - 1].0.as_str(), e.0.as_str())
            invariant
                k <= r@.len(),
                r@ == r0,
                forall|j: int| k <= j < r0.len() ==> before(r0[j].0@, e.0@),
            decreases k,
        {
            k -= 1;
        }
        proof {
            lemma_insert_descending(r0, e, k as int);
            broadcast use vstd::seq_lib::group_to_multiset_ensures;

            assert(rest0 =~= rest@.push(e));
            vstd::seq_lib::to_multiset_build(rest@, e);
            assert(r0.insert(k as int, e).to_multiset() =~= r0.to_multiset().insert(e));
            assert(r0.to_multiset().add(rest@.to_multiset().insert(e))
                =~= r0.to_multiset().insert(e).add(rest@.to_multiset()));
        }
        r.insert(k, e);
    }
    proof {
        broadcast use vstd::seq_lib::group_to_multiset_ensures;
        assert(rest@.to_multiset() =~= Multiset::empty());
        assert(r@.to_multiset().add(Multiset::empty()) =~= r@.to_multiset());
    }
    r
}

/// Texts in ascending order: none comes before an earlier one.
pub open spec fn ascending(s: Seq<Seq<char>>) -> bool {
    forall|i: int, j: int| 0 <= i < j < s.len() ==> !before(s[j], s[i])
}

/// `s` holds the texts of `all`, in ascending order.
pub open spec fn in_order(all: Seq<Seq<char>>, s: Seq<Seq<char>>) -> bool {
    ascending(s) && s.to_multiset() == all.to_multiset()
}

/// The texts in ascending order.
pub fn sort_ascending(all: Vec<String>) -> (r: Vec<String>)
    ensures
        in_order(views(all@), views(r@)),
{
    let mut rest = all;
    let mut r: Vec<String> = Vec::new();
    proof {
        broadcast use vstd::seq_lib::group_to_multiset_ensures;
        assert(views(r@) =~= Seq::<Seq<char>>::empty());
        assert(views(r@).to_multiset().add(views(rest@).to_multiset())
            =~= views(all@).to_multiset());
    }
    while rest.len() > 0
        invariant
            ascending(views(r@)),
            views(r@).to_multiset().add(views(rest@).to_multiset()) == views(all@).to_multiset(),
        decreases rest@.len(),
    {
        let ghost rest0 = views(rest@);
        let ghost r0 = views(r@);
        let e = rest.pop().unwrap();
        let mut k: usize = r.len();
        while k > 0 && comes_before(e.as_str(), r[k - 1].as_str())
            invariant
                k <= r@.len(),
                views(r@) == r0,
                forall|j: int| k <= j < r0.len() ==> before(e@, #[trigger] r0[j]),
            decreases k,
        {
            assert(r0[k - 1] == r@[k - 1]@);
            k -= 1;
        }
        proof {
            if k > 0 {
                assert(r0[k - 1] == r@[k - 1]@);
            }
            lemma_insert_ascending(r0, e@, k as int);
            broadcast use vstd::seq_lib::group_to_multiset_ensures;

            assert(rest0 =~= views(rest@).push(e@));
            vstd::seq_lib::to_multiset_build(views(rest@), e@);
            assert(r0.insert(k as int, e@).to_multiset() =~= r0.to_multiset().insert(e@));
            assert(r0.to_multiset().add(views(rest@).to_multiset().insert(e@))
                =~= r0.to_multiset().insert(e@).add(views(rest@).to_multiset()));
        }
        let ghost text = e@;
        r.insert(k, e);
        assert(views(r@) =~= r0.insert(k as int, text));
    }
    proof {
        broadcast use vstd::seq_lib::group_to_multiset_ensures;
        assert(views(rest@) =~= Seq::<Seq<char>>::empty());
        assert(views(rest@).to_multiset() =~= Multiset::empty());
        assert(views(r@).to_multiset().add(Multiset::empty()) =~= views(r@).to_multiset());
    }
    r
}

/// A text put behind all that do not come after it, and before the rest, keeps
/// a list in ascending order.
proof fn lemma_insert_ascending(s: Seq<Seq<char>>, e: Seq<char>, k: int)
    requires
        ascending(s),
        0 <= k <= s.len(),
        k > 0 ==> !before(e, s[k - 1]),
        forall|j: int| k <= j < s.len() ==> before(e, #[trigger] s[j]),
    ensures
        ascending(s.insert(k, e)),
{
    let t = s.insert(k, e);
    assert forall|i: int, j: int| 0 <= i < j < t.len() implies !before(t[j], t[i]) by {
        if i < k && j == k {
            if before(e, s[i]) {
                assert(e.take(0) =~= s[k - 1].take(0));
                lemma_before_total(e, s[k - 1], 0);
                if before(s[k - 1], e) {
                    lemma_before_transitive(s[k - 1], e, s[i], 0);
                }
                if i < k - 1 {
                    assert(!before(s[k - 1], s[i]));
                }
            }
        } else if i == k {
            assert(before(e, s[j - 1]));
            assert(e.take(0) =~= s[j - 1].take(0));
            lemma_before_total(e, s[j - 1], 0);
        } else if i > k {
            assert(t[i] == s[i - 1] && t[j] == s[j - 1]);
        } else if j > k {
            assert(t[j] == s[j - 1]);
        }
    }
}

/// An entry put behind all that it does not come before, and before the rest,
/// keeps a list in descending order.
proof fn lemma_insert_descending<T>(s: Seq<(String, T)>, e: (String, T), k: int)
    requires
        descending(s),
        0 <= k <= s.len(),
        k > 0 ==> !before(s[k - 1].0@, e.0@),
        forall|j: int| k <= j < s.len() ==> before(s[j].0@, e.0@),
    ensures
        descending(s.insert(k, e)),
{
    let t = s.insert(k, e);
    assert forall|i: int, j: int| 0 <= i < j < t.len() implies !before(t[i].0@, t[j].0@) by {
        if i < k && j == k {
            if before(s[i].0@, e.0@) {
                // s[i] < e <= s[k - 1] would order s[i] before s[k - 1].
                assert(e.0@.take(0) =~= s[k - 1].0@.take(0));
                lemma_before_total(e.0@, s[k - 1].0@, 0);
                if before(e.0@, s[k - 1].0@) {
                    lemma_before_transitive(s[i].0@, e.0@, s[k - 1].0@, 0);
                }
                if i < k - 1 {
                    assert(!before(s[i].0@, s[k - 1].0@));
                }
            }
        } else if i == k {
            assert(before(s[j - 1].0@, e.0@));
            assert(e.0@.take(0) =~= s[j - 1].0@.take(0));
            lemma_before_total(e.0@, s[j - 1].0@, 0);
        } else if i > k {
            assert(t[i] == s[i - 1] && t[j] == s[j - 1]);
        } else if j > k {
            assert(t[j] == s[j - 1]);
        }
    }
}

/// The first difference decides, and a text comes before every longer text that
/// begins with it.
pub proof fn law_first_difference_decides(a: Seq<char>, b: Seq<char>, k: int, i: int)
    requires
        0 <= i <= k <= a.len(),
        k <= b.len(),
        forall|j: int| 0 <= j < k ==> #[trigger] a[j] == b[j],
    ensures
        k < a.len() && k < b.len() && a[k] != b[k] ==> before_from(a, b, i) == (a[k] < b[k]),
        k == a.len() && k < b.len() ==> before_from(a, b, i),
        k == b.len() ==> !before_from(a, b, i),
    decreases k - i,
{
    if i < k {
        assert(a[i] == b[i]);
        law_first_difference_decides(a, b, k, i + 1);
    }
}

} // verus!
