//! Which entries of a directory are kept, and which is the latest. Names hold
//! timestamps, so the last name is the newest.

use crate::util::order::{before, comes_before, newest_first, sort_newest_first};
use crate::util::text::{begins, ends, ends_in, starts, views};
use vstd::prelude::*;

verus! {

/// What a directory entry is.
#[derive(Debug, Clone, Copy, PartialEq, Eq, Structural)]
pub enum EntryKind {
    Dir,
    File,
    Other,
}

/// A directory entry: its name, and what it is.
pub type Entry = (String, EntryKind);

/// Which entries are meant: by how their names begin and end, and what they are.
pub struct Rule {
    pub prefix: &'static str,
    pub suffix: &'static str,
    /// `None` where it does not matter.
    pub kind: Option<EntryKind>,
}

/// The view of a `Rule`.
pub struct RuleView {
    pub prefix: Seq<char>,
    pub suffix: Seq<char>,
    pub kind: Option<EntryKind>,
}

impl View for Rule {
    type V = RuleView;

    open spec fn view(&self) -> RuleView {
        RuleView { prefix: self.prefix@, suffix: self.suffix@, kind: self.kind }
    }
}

impl RuleView {
    /// The entry is meant.
    pub open spec fn selects(self, e: Entry) -> bool {
        begins(e.0@, self.prefix) && ends(e.0@, self.suffix) && match self.kind {
            Some(k) => e.1 == k,
            None => true,
        }
    }
}

impl Rule {
    /// Whether the entry is meant.
    pub fn test(&self, e: &Entry) -> (r: bool)
        ensures
            r == self@.selects(*e),
    {
        starts(e.0.as_str(), self.prefix) && ends_in(e.0.as_str(), self.suffix) && match self.kind {
            Some(k) => e.1 == k,
            None => true,
        }
    }
}

/// The finished snapshots of the main database.
pub open spec fn main_snapshots() -> RuleView {
    RuleView { prefix: "main-"@, suffix: ".sqlite"@, kind: None }
}

/// The directories whose names begin with `prefix`.
pub open spec fn dirs_named(prefix: Seq<char>) -> RuleView {
    RuleView { prefix, suffix: Seq::empty(), kind: Some(EntryKind::Dir) }
}

/// The finished snapshots of the main database.
pub fn sqlite_snapshots() -> (r: Rule)
    ensures
        r@ == main_snapshots(),
{
    Rule { prefix: "main-", suffix: ".sqlite", kind: None }
}

/// The directories whose names begin with `prefix`.
pub fn directories(prefix: &'static str) -> (r: Rule)
    ensures
        r@ == dirs_named(prefix@),
{
    proof {
        reveal_strlit("");
        assert(""@ =~= Seq::<char>::empty());
    }
    Rule { prefix, suffix: "", kind: Some(EntryKind::Dir) }
}

/// The meant ones among the first `n` entries, in order.
pub open spec fn selected(entries: Seq<Entry>, rule: RuleView, n: int) -> Seq<Entry>
    decreases n,
{
    if n <= 0 {
        Seq::empty()
    } else if rule.selects(entries[n - 1]) {
        selected(entries, rule, n - 1).push(entries[n - 1])
    } else {
        selected(entries, rule, n - 1)
    }
}

/// The meant entries, in order.
pub open spec fn meant(entries: Seq<Entry>, rule: RuleView) -> Seq<Entry> {
    selected(entries, rule, entries.len() as int)
}

/// The names of entries.
pub open spec fn names_of(entries: Seq<Entry>) -> Seq<Seq<char>> {
    Seq::new(entries.len(), |i: int| entries[i].0@)
}

/// What lies beyond the first `keep` entries.
pub open spec fn beyond(sorted: Seq<Entry>, keep: nat) -> Seq<Entry> {
    if sorted.len() <= keep {
        Seq::empty()
    } else {
        sorted.skip(keep as int)
    }
}

/// The names of all but the newest `keep` entries, newest first.
pub open spec fn expired(all: Seq<Entry>, keep: nat, r: Seq<Seq<char>>) -> bool {
    exists|sorted: Seq<Entry>| newest_first(all, sorted) && r == #[trigger] names_of(beyond(sorted, keep))
}

/// The meant entries, in order.
fn select(entries: &Vec<Entry>, rule: &Rule) -> (r: Vec<Entry>)
    ensures
        r@ == meant(entries@, rule@),
{
    let mut r: Vec<Entry> = Vec::new();
    let mut i: usize = 0;
    while i < entries.len()
        invariant
            i <= entries@.len(),
            r@ == selected(entries@, rule@, i as int),
        decreases entries@.len() - i,
    {
        if rule.test(&entries[i]) {
            r.push((entries[i].0.clone(), entries[i].1));
        }
        i += 1;
    }
    r
}

/// The names of the meant entries to remove: all but the newest `keep`.
pub fn prune(entries: &Vec<Entry>, rule: &Rule, keep: usize) -> (r: Vec<String>)
    ensures
        expired(meant(entries@, rule@), keep as nat, views(r@)),
{
    let sorted = sort_newest_first(select(entries, rule));
    let mut r: Vec<String> = Vec::new();
    let mut i: usize = keep;
    while i < sorted.len()
        invariant
            keep <= i,
            i <= sorted@.len() || i == keep,
            r@.len() == i - keep,
            forall|k: int| 0 <= k < r@.len() ==> r@[k]@ == sorted@[keep + k].0@,
        decreases sorted@.len() - i,
    {
        r.push(sorted[i].0.clone());
        i += 1;
    }
    assert(views(r@) =~= names_of(beyond(sorted@, keep as nat)));
    r
}

/// `name` is that of the latest of these entries.
pub open spec fn is_latest(entries: Seq<Entry>, name: Seq<char>) -> bool {
    &&& exists|i: int| 0 <= i < entries.len() && (#[trigger] entries[i]).0@ == name
    &&& forall|i: int| 0 <= i < entries.len() ==> !before(name, (#[trigger] entries[i]).0@)
}

/// The name of the latest of the meant entries.
pub fn latest(entries: &Vec<Entry>, rule: &Rule) -> (r: Option<String>)
    ensures
        match r {
            Some(name) => is_latest(meant(entries@, rule@), name@),
            None => meant(entries@, rule@).len() == 0,
        },
{
    let s = select(entries, rule);
    if s.len() == 0 {
        return None;
    }
    let mut best: usize = 0;
    let mut i: usize = 1;
    proof {
        crate::util::order::lemma_not_before_itself(s@[0].0@, 0);
    }
    while i < s.len()
        invariant
            1 <= i <= s@.len(),
            best < i,
            forall|k: int| 0 <= k < i ==> !before(s@[best as int].0@, (#[trigger] s@[k]).0@),
        decreases s@.len() - i,
    {
        if comes_before(s[best].0.as_str(), s[i].0.as_str()) {
            proof {
                let old_best = s@[best as int].0@;
                let new_best = s@[i as int].0@;
                crate::util::order::lemma_not_before_itself(new_best, 0);
                assert forall|k: int| 0 <= k < i + 1 implies !before(new_best, (#[trigger] s@[k]).0@) by {
                    if k < i && before(new_best, s@[k].0@) {
                        crate::util::order::lemma_before_transitive(
                            old_best,
                            new_best,
                            s@[k].0@,
                            0,
                        );
                    }
                }
            }
            best = i;
        }
        i += 1;
    }
    let r = s[best].0.clone();
    assert(s@[best as int].0@ == r@);
    Some(r)
}

/// What is removed is never newer than what is kept, and what is kept is as
/// many entries as there are, up to `keep`.
pub proof fn law_the_newest_are_kept(all: Seq<Entry>, sorted: Seq<Entry>, keep: nat, i: int, j: int)
    requires
        newest_first(all, sorted),
        0 <= i < keep,
        i < sorted.len(),
        0 <= j < beyond(sorted, keep).len(),
    ensures
        !before(sorted[i].0@, beyond(sorted, keep)[j].0@),
        sorted.len() - beyond(sorted, keep).len() == keep,
{
}

/// As long as there are no more than `keep` entries, none is removed.
pub proof fn law_few_entries_are_kept(all: Seq<Entry>, keep: nat, r: Seq<Seq<char>>)
    requires
        all.len() <= keep,
        expired(all, keep, r),
    ensures
        r == Seq::<Seq<char>>::empty(),
{
    let sorted = choose|sorted: Seq<Entry>|
        newest_first(all, sorted) && r == #[trigger] names_of(beyond(sorted, keep));
    vstd::seq_lib::to_multiset_len(all);
    vstd::seq_lib::to_multiset_len(sorted);
    assert(names_of(beyond(sorted, keep)) =~= Seq::<Seq<char>>::empty());
}

/// Exactly those entries are meant whose names begin and end as asked, and
/// which are of the kind asked for, each as often as it occurs and in its order:
/// one more entry is added at the end where it is meant, and changes nothing
/// otherwise.
pub proof fn law_meant_by_name_and_kind(entries: Seq<Entry>, e: Entry, rule: RuleView)
    ensures
        ({
            let name = e.0@;
            let fits = name.len() >= rule.prefix.len() && name.len() >= rule.suffix.len()
                && name.take(rule.prefix.len() as int) == rule.prefix && name.skip(
                name.len() - rule.suffix.len(),
            ) == rule.suffix && (rule.kind is None || rule.kind == Some(e.1));
            &&& fits ==> meant(entries.push(e), rule) == meant(entries, rule).push(e)
            &&& !fits ==> meant(entries.push(e), rule) == meant(entries, rule)
            &&& meant(Seq::empty(), rule).len() == 0
        }),
{
    let name = e.0@;
    lemma_selected_in_longer(entries, e, rule, entries.len() as int);
    if name.len() >= rule.prefix.len() {
        assert(name.take(rule.prefix.len() as int) =~= name.subrange(0, rule.prefix.len() as int));
    }
    if name.len() >= rule.suffix.len() {
        assert(name.skip(name.len() - rule.suffix.len()) =~= name.subrange(
            name.len() - rule.suffix.len(),
            name.len() as int,
        ));
    }
}

/// What follows does not change what is meant before it.
proof fn lemma_selected_in_longer(entries: Seq<Entry>, e: Entry, rule: RuleView, n: int)
    requires
        0 <= n <= entries.len(),
    ensures
        selected(entries.push(e), rule, n) == selected(entries, rule, n),
    decreases n,
{
    if n > 0 {
        lemma_selected_in_longer(entries, e, rule, n - 1);
        assert(entries.push(e)[n - 1] == entries[n - 1]);
    }
}

/// Where there are more entries than are kept, as many are removed as are too
/// many.
pub proof fn law_the_rest_is_removed(all: Seq<Entry>, keep: nat, r: Seq<Seq<char>>)
    requires
        keep < all.len(),
        expired(all, keep, r),
    ensures
        r.len() == all.len() - keep,
        forall|i: int| 0 <= i < r.len() ==> names_of(all).contains(#[trigger] r[i]),
{
    let sorted = choose|sorted: Seq<Entry>|
        newest_first(all, sorted) && r == #[trigger] names_of(beyond(sorted, keep));
    vstd::seq_lib::to_multiset_len(all);
    vstd::seq_lib::to_multiset_len(sorted);
    assert forall|i: int| 0 <= i < r.len() implies names_of(all).contains(#[trigger] r[i]) by {
        let e = sorted[keep + i];
        assert(r[i] == e.0@);
        assert(sorted.contains(e));
        vstd::seq_lib::to_multiset_contains(sorted, e);
        vstd::seq_lib::to_multiset_contains(all, e);
        let j = choose|j: int| 0 <= j < all.len() && all[j] == e;
        assert(names_of(all)[j] == r[i]);
    }
}

/// The latest entry is one of the entries, and none has a later name.
pub proof fn law_latest_is_an_entry(entries: Seq<Entry>, name: Seq<char>, i: int)
    requires
        is_latest(entries, name),
        0 <= i < entries.len(),
    ensures
        names_of(entries).contains(name),
        !before(name, entries[i].0@),
{
    let k = choose|k: int| 0 <= k < entries.len() && (#[trigger] entries[k]).0@ == name;
    assert(names_of(entries)[k] == name);
}

} // verus!
