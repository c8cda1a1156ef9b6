//! UNIX paths as texts.

use crate::util::text::{
    chars_of, lemma_upto_bounds, lemma_upto_is, pieces, pieces_from, same, split, upto, views, Class,
};
use vstd::prelude::*;

verus! {

/// `part` below `base`: an absolute `part` stands alone, and one slash
/// separates the two.
pub open spec fn joined_path(base: Seq<char>, part: Seq<char>) -> Seq<char> {
    if base.len() == 0 || (part.len() > 0 && part[0] == '/') {
        part
    } else if base.last() == '/' {
        base + part
    } else {
        base.push('/') + part
    }
}

/// `part` below `base`.
pub fn join_path(base: &str, part: &str) -> (r: String)
    ensures
        r@ == joined_path(base@, part@),
{
    let b = chars_of(base);
    let p = chars_of(part);
    if b.len() == 0 || (p.len() > 0 && p[0] == '/') {
        return part.to_owned();
    }
    let mut r = base.to_owned();
    if b[b.len() - 1] != '/' {
        r.push('/');
    }
    r.append(part);
    r
}

/// A piece between slashes counts: it is not empty, and no `.` but at the start
/// of a relative path.
pub open spec fn counts(ps: Seq<Seq<char>>, i: int) -> bool {
    ps[i].len() > 0 && (i == 0 || ps[i] != "."@)
}

/// Those of the first `n` pieces that count.
pub open spec fn counted_pieces(ps: Seq<Seq<char>>, n: int) -> Seq<Seq<char>>
    decreases n,
{
    if n <= 0 {
        Seq::empty()
    } else if counts(ps, n - 1) {
        counted_pieces(ps, n - 1).push(ps[n - 1])
    } else {
        counted_pieces(ps, n - 1)
    }
}

/// The components of a path below its root, if it has one: repeated slashes,
/// trailing slashes and `.` aside, except a `.` that a relative path begins with.
pub open spec fn components(path: Seq<char>) -> Seq<Seq<char>> {
    counted_pieces(pieces(path, '/'), pieces(path, '/').len() as int)
}

/// The path begins at the root.
pub open spec fn is_absolute(path: Seq<char>) -> bool {
    path.len() > 0 && path[0] == '/'
}

/// Two paths are the same: both or neither begin at the root, and their
/// components are equal.
pub open spec fn same_path(a: Seq<char>, b: Seq<char>) -> bool {
    is_absolute(a) == is_absolute(b) && components(a) == components(b)
}

/// The final component of a path, where that is the name of a file or directory.
pub open spec fn file_name(path: Seq<char>) -> Option<Seq<char>> {
    let c = components(path);
    if c.len() == 0 || c.last() == "."@ || c.last() == ".."@ {
        None
    } else {
        Some(c.last())
    }
}

/// The components of a path below its root.
pub fn components_of(path: &str) -> (r: Vec<String>)
    ensures
        views(r@) == components(path@),
{
    let ps = split(path, '/');
    let mut r: Vec<String> = Vec::new();
    assert(views(r@) =~= Seq::<Seq<char>>::empty());
    let mut i: usize = 0;
    while i < ps.len()
        invariant
            i <= ps@.len(),
            views(ps@) == pieces(path@, '/'),
            views(r@) == counted_pieces(pieces(path@, '/'), i as int),
        decreases ps@.len() - i,
    {
        let p = ps[i].as_str();
        assert(views(ps@)[i as int] == p@);
        if !p.is_empty() && (i == 0 || !same(p, ".")) {
            let ghost before = views(r@);
            r.push(p.to_owned());
            assert(views(r@) =~= before.push(p@));
        }
        i += 1;
    }
    r
}

/// Whether the path begins at the root.
fn begins_at_root(path: &str) -> (r: bool)
    ensures
        r == is_absolute(path@),
{
    let v = chars_of(path);
    v.len() > 0 && v[0] == '/'
}

/// Whether two paths are the same, compared by their components.
pub fn is_same_path(a: &str, b: &str) -> (r: bool)
    ensures
        r == same_path(a@, b@),
{
    if begins_at_root(a) != begins_at_root(b) {
        return false;
    }
    let x = components_of(a);
    let y = components_of(b);
    assert(views(x@).len() == x@.len() && views(y@).len() == y@.len());
    if x.len() != y.len() {
        return false;
    }
    let mut i: usize = 0;
    while i < x.len()
        invariant
            i <= x@.len(),
            x@.len() == y@.len(),
            forall|k: int| 0 <= k < i ==> views(x@)[k] == #[trigger] views(y@)[k],
            views(x@) == components(a@),
            views(y@) == components(b@),
        decreases x@.len() - i,
    {
        assert(views(x@)[i as int] == x@[i as int]@ && views(y@)[i as int] == y@[i as int]@);
        if !same(x[i].as_str(), y[i].as_str()) {
            return false;
        }
        i += 1;
    }
    assert(views(x@) =~= views(y@));
    true
}

/// The final component of a path, where that is the name of a file or directory.
pub fn name_of(path: &str) -> (r: Option<String>)
    ensures
        match r {
            Some(n) => file_name(path@) == Some(n@),
            None => file_name(path@) is None,
        },
{
    let mut c = components_of(path);
    let ghost all = views(c@);
    match c.pop() {
        Some(last) => {
            assert(all.last() == last@);
            if same(last.as_str(), ".") || same(last.as_str(), "..") {
                None
            } else {
                Some(last)
            }
        },
        None => None,
    }
}

/// How a path is written makes no difference to the name it ends in: the same
/// path has the same file name.
pub proof fn law_same_path_same_name(a: Seq<char>, b: Seq<char>)
    requires
        same_path(a, b),
    ensures
        file_name(a) == file_name(b),
        same_path(b, a),
{
}

/// The name of a file is what follows the last slash of its path.
pub proof fn law_name_follows_the_last_slash(base: Seq<char>, name: Seq<char>)
    requires
        name.len() > 0,
        name != "."@,
        name != ".."@,
        forall|i: int| 0 <= i < name.len() ==> #[trigger] name[i] != '/',
    ensures
        file_name(base.push('/') + name) == Some(name),
        file_name(joined_path(base, name)) == Some(name),
{
    let s = base.push('/') + name;
    lemma_last_piece(base, name, 0);
    let ps = pieces(s, '/');
    assert(ps.len() >= 2);
    assert(counts(ps, ps.len() - 1));
    assert(components(s).last() == name);
    if base.len() == 0 {
        lemma_one_piece(name);
        assert(counts(seq![name], 0));
        reveal_with_fuel(counted_pieces, 2);
        assert(components(name).last() == name);
    } else if base.last() == '/' {
        let b = base.drop_last();
        assert(b.push('/') =~= base);
        lemma_last_piece(b, name, 0);
        let qs = pieces(base + name, '/');
        assert(counts(qs, qs.len() - 1));
        assert(components(base + name).last() == name);
    }
}

/// A text without slashes is one piece.
proof fn lemma_one_piece(name: Seq<char>)
    requires
        forall|i: int| 0 <= i < name.len() ==> #[trigger] name[i] != '/',
    ensures
        pieces(name, '/') == seq![name],
{
    lemma_upto_is(name, Class::Is('/'), 0, name.len() as int);
    assert(name.skip(0) =~= name);
}

/// The last piece is what follows the last slash.
proof fn lemma_last_piece(base: Seq<char>, name: Seq<char>, i: int)
    requires
        0 <= i <= base.len(),
        forall|j: int| 0 <= j < name.len() ==> #[trigger] name[j] != '/',
    ensures
        pieces_from(base.push('/') + name, '/', i).len() >= 2,
        pieces_from(base.push('/') + name, '/', i).last() == name,
    decreases base.len() - i,
{
    let s = base.push('/') + name;
    let k = Class::Is('/');
    lemma_upto_bounds(s, k, i);
    let e = upto(s, k, i);
    assert(s[base.len() as int] == '/');
    if e > base.len() {
        assert(!k.holds(s[base.len() as int]));
    }
    if e < base.len() {
        lemma_last_piece(base, name, e + 1);
    } else {
        let f = base.len() as int + 1;
        assert forall|j: int| f <= j < s.len() implies !k.holds(#[trigger] s[j]) by {
            assert(s[j] == name[j - f]);
        }
        lemma_upto_is(s, k, f, s.len() as int);
        assert(s.skip(f) =~= name);
    }
}

/// Joining puts one slash between the parts; an absolute part stands for itself,
/// and so does one behind nothing.
pub proof fn law_joining_puts_one_slash(base: Seq<char>, part: Seq<char>)
    requires
        part.len() > 0,
        part[0] != '/',
    ensures
        base.len() > 0 && base.last() != '/' ==> joined_path(base, part) == base + "/"@ + part,
        joined_path(base.push('/'), part) == base + "/"@ + part,
        joined_path(base, "/"@ + part) == "/"@ + part,
        joined_path(Seq::empty(), part) == part,
        is_absolute("/"@ + part),
        !is_absolute(part),
{
    reveal_strlit("/");
    assert(base.push('/') + part =~= base + "/"@ + part);
    assert(("/"@ + part)[0] == '/');
}

/// Doubled slashes and dots behind the first piece do not count; everything else
/// does, in its order.
pub proof fn law_empty_pieces_do_not_count(ps: Seq<Seq<char>>, p: Seq<char>)
    ensures
        ({
            let n = ps.len() as int;
            let (before, after) = (counted_pieces(ps, n), counted_pieces(ps.push(p), n + 1));
            &&& p.len() == 0 ==> after == before
            &&& p == "."@ && n > 0 ==> after == before
            &&& p == "."@ && n == 0 ==> after == before.push(p)
            &&& p.len() > 0 && p != "."@ ==> after == before.push(p)
        }),
{
    reveal_strlit(".");
    lemma_counted_in_longer(ps, p, ps.len() as int);
}

/// What follows does not change which pieces count before.
proof fn lemma_counted_in_longer(ps: Seq<Seq<char>>, p: Seq<char>, n: int)
    requires
        0 <= n <= ps.len(),
    ensures
        counted_pieces(ps.push(p), n) == counted_pieces(ps, n),
    decreases n,
{
    if n > 0 {
        lemma_counted_in_longer(ps, p, n - 1);
        assert(ps.push(p)[n - 1] == ps[n - 1]);
    }
}

/// Every path is the same as itself, and an absolute path is never the same as
/// a relative one.
pub proof fn law_absolute_is_not_relative(a: Seq<char>, b: Seq<char>)
    ensures
        same_path(a, a),
        same_path(a, b) ==> same_path(b, a),
        is_absolute(a) && !is_absolute(b) ==> !same_path(a, b),
{
}

} // verus!
