//! Text as sequences of characters: searching, trimming, splitting, joining,
//! and decimal numbers.

use vstd::prelude::*;

verus! {

/// `String::push` puts one character behind the text.
pub assume_specification[ String::push ](s: &mut String, c: char)
    ensures
        final(s)@ == old(s)@.push(c),
;

// ── Characters ────────────────────────────────────────────────────────

/// The characters with Unicode's `White_Space` property.
pub open spec fn is_white(c: char) -> bool {
    let n = c as u32;
    ||| 9 <= n <= 13
    ||| n == 0x20
    ||| n == 0x85
    ||| n == 0xA0
    ||| n == 0x1680
    ||| 0x2000 <= n <= 0x200A
    ||| n == 0x2028
    ||| n == 0x2029
    ||| n == 0x202F
    ||| n == 0x205F
    ||| n == 0x3000
}

/// Whether `c` is white space.
pub fn white(c: char) -> (r: bool)
    ensures
        r == is_white(c),
{
    let n: u32 = c as u32;
    (9 <= n && n <= 13) || n == 0x20 || n == 0x85 || n == 0xA0 || n == 0x1680 || (0x2000 <= n && n
        <= 0x200A) || n == 0x2028 || n == 0x2029 || n == 0x202F || n == 0x205F || n == 0x3000
}

/// `0` to `9`.
pub open spec fn is_digit(c: char) -> bool {
    '0' <= c <= '9'
}

/// Whether `c` is one of `0` to `9`.
pub fn digit(c: char) -> (r: bool)
    ensures
        r == is_digit(c),
{
    '0' <= c && c <= '9'
}

/// `0` to `9`, `A` to `Z` and `a` to `z`.
pub open spec fn is_alphanumeric(c: char) -> bool {
    is_digit(c) || 'A' <= c <= 'Z' || 'a' <= c <= 'z'
}

/// Whether `c` is an ASCII letter or digit.
pub fn alphanumeric(c: char) -> (r: bool)
    ensures
        r == is_alphanumeric(c),
{
    digit(c) || ('A' <= c && c <= 'Z') || ('a' <= c && c <= 'z')
}

/// ASCII lower case of one character.
pub open spec fn lower(c: char) -> char {
    if 'A' <= c <= 'Z' {
        ((c as u8) + 32) as u8 as char
    } else {
        c
    }
}

/// A set of characters to skip or trim.
#[derive(Clone, Copy)]
pub enum Class {
    /// White space.
    White,
    /// One character.
    Is(char),
    /// Either of two characters.
    Either(char, char),
}

impl Class {
    /// Whether `c` belongs to the set.
    pub open spec fn holds(self, c: char) -> bool {
        match self {
            Class::White => is_white(c),
            Class::Is(a) => c == a,
            Class::Either(a, b) => c == a || c == b,
        }
    }

    /// Whether `c` belongs to the set.
    pub fn test(self, c: char) -> (r: bool)
        ensures
            r == self.holds(c),
    {
        match self {
            Class::White => white(c),
            Class::Is(a) => c == a,
            Class::Either(a, b) => c == a || c == b,
        }
    }
}

// ── Whole texts ───────────────────────────────────────────────────────

/// The views of a sequence of strings.
pub open spec fn views(v: Seq<String>) -> Seq<Seq<char>> {
    Seq::new(v.len(), |i: int| v[i]@)
}

/// The characters of a text, in order.
pub fn chars_of(s: &str) -> (r: Vec<char>)
    ensures
        r@ == s@,
{
    let mut r: Vec<char> = Vec::new();
    for c in it: s.chars()
        invariant
            it.seq() == s@,
            r@ == s@.take(it.index() as int),
    {
        assert(s@.take(it.index() as int + 1) =~= s@.take(it.index() as int).push(c));
        r.push(c);
    }
    assert(s@.take(s@.len() as int) =~= s@);
    r
}

/// The text from position `a` up to, not including, position `b`.
pub fn sub_text(v: &Vec<char>, a: usize, b: usize) -> (r: String)
    requires
        a <= b <= v@.len(),
    ensures
        r@ == v@.subrange(a as int, b as int),
{
    let mut r = String::new();
    let mut i: usize = a;
    assert(v@.subrange(a as int, a as int) =~= Seq::<char>::empty());
    while i < b
        invariant
            a <= i <= b <= v@.len(),
            r@ == v@.subrange(a as int, i as int),
        decreases b - i,
    {
        assert(v@.subrange(a as int, i as int + 1) =~= v@.subrange(a as int, i as int).push(
            v@[i as int],
        ));
        r.push(v[i]);
        i += 1;
    }
    r
}

/// Whether two texts are equal.
pub fn same(a: &str, b: &str) -> (r: bool)
    ensures
        r == (a@ == b@),
{
    let x = chars_of(a);
    let y = chars_of(b);
    if x.len() != y.len() {
        return false;
    }
    let mut i: usize = 0;
    while i < x.len()
        invariant
            x@ == a@,
            y@ == b@,
            x@.len() == y@.len(),
            i <= x@.len(),
            forall|k: int| 0 <= k < i ==> x@[k] == y@[k],
        decreases x@.len() - i,
    {
        if x[i] != y[i] {
            assert(a@[i as int] != b@[i as int]);
            return false;
        }
        i += 1;
    }
    assert(a@ =~= b@);
    true
}

/// `c` in ASCII lower case.
pub fn lower_char(c: char) -> (r: char)
    ensures
        r == lower(c),
{
    if 'A' <= c && c <= 'Z' {
        ((c as u8) + 32) as char
    } else {
        c
    }
}

/// `s` with `A` to `Z` in lower case.
pub open spec fn ascii_lower(s: Seq<char>) -> Seq<char> {
    Seq::new(s.len(), |i: int| lower(s[i]))
}

/// `s` with `A` to `Z` in lower case.
pub fn to_ascii_lower(s: &str) -> (r: String)
    ensures
        r@ == ascii_lower(s@),
{
    let v = chars_of(s);
    let mut r = String::new();
    let mut i: usize = 0;
    while i < v.len()
        invariant
            v@ == s@,
            i <= v@.len(),
            r@ == ascii_lower(s@).take(i as int),
        decreases v@.len() - i,
    {
        assert(ascii_lower(s@).take(i as int + 1) =~= ascii_lower(s@).take(i as int).push(
            lower(v@[i as int]),
        ));
        r.push(lower_char(v[i]));
        i += 1;
    }
    assert(ascii_lower(s@).take(i as int) =~= ascii_lower(s@));
    r
}

/// `s` in lower case, by Unicode's tables.
pub uninterp spec fn lowercase(s: Seq<char>) -> Seq<char>;

/// `str::to_lowercase`: its result is a function of the text, named `lowercase`.
#[verifier::external_body]
pub(crate) fn to_lower(s: &str) -> (r: String)
    ensures
        r@ == lowercase(s@),
{
    s.to_lowercase()
}

/// `s` in upper case, by Unicode's tables.
pub uninterp spec fn uppercase(s: Seq<char>) -> Seq<char>;

/// `str::to_uppercase`: its result is a function of the text, named `uppercase`.
#[verifier::external_body]
pub(crate) fn to_upper(s: &str) -> (r: String)
    ensures
        r@ == uppercase(s@),
{
    s.to_uppercase()
}

/// `s` with every `from` replaced by `to`.
pub open spec fn replaced_char(s: Seq<char>, from: char, to: char) -> Seq<char> {
    Seq::new(
        s.len(),
        |i: int|
            if s[i] == from {
                to
            } else {
                s[i]
            },
    )
}

/// `s` with every `from` replaced by `to`.
pub fn replace_char(s: &str, from: char, to: char) -> (r: String)
    ensures
        r@ == replaced_char(s@, from, to),
{
    let v = chars_of(s);
    let mut r = String::new();
    let mut i: usize = 0;
    while i < v.len()
        invariant
            v@ == s@,
            i <= v@.len(),
            r@ == replaced_char(s@, from, to).take(i as int),
        decreases v@.len() - i,
    {
        let c = if v[i] == from {
            to
        } else {
            v[i]
        };
        assert(replaced_char(s@, from, to).take(i as int + 1) =~= replaced_char(s@, from, to).take(
            i as int,
        ).push(c));
        r.push(c);
        i += 1;
    }
    assert(replaced_char(s@, from, to).take(i as int) =~= replaced_char(s@, from, to));
    r
}

// ── Prefixes, suffixes and occurrences ────────────────────────────────

/// `p` stands in `s` at position `i`.
pub open spec fn occurs_at(s: Seq<char>, p: Seq<char>, i: int) -> bool {
    0 <= i && i + p.len() <= s.len() && s.subrange(i, i + p.len()) == p
}

/// `s` begins with `p`.
pub open spec fn begins(s: Seq<char>, p: Seq<char>) -> bool {
    occurs_at(s, p, 0)
}

/// `s` ends with `p`.
pub open spec fn ends(s: Seq<char>, p: Seq<char>) -> bool {
    occurs_at(s, p, s.len() - p.len())
}

/// `p` stands somewhere in `s`.
pub open spec fn holds_text(s: Seq<char>, p: Seq<char>) -> bool {
    exists|i: int| occurs_at(s, p, i)
}

/// The first position at or after `i` where `p` stands in `s`.
pub open spec fn found_from(s: Seq<char>, p: Seq<char>, i: int) -> Option<int>
    decreases s.len() + 1 - i,
{
    if i < 0 || i + p.len() > s.len() {
        None
    } else if occurs_at(s, p, i) {
        Some(i)
    } else {
        found_from(s, p, i + 1)
    }
}

/// What follows the prefix `p`, where `s` has it.
pub open spec fn after_prefix(s: Seq<char>, p: Seq<char>) -> Option<Seq<char>> {
    if begins(s, p) {
        Some(s.skip(p.len() as int))
    } else {
        None
    }
}

/// What precedes the suffix `p`; `s` itself where it does not end so.
pub open spec fn without_suffix(s: Seq<char>, p: Seq<char>) -> Seq<char> {
    if ends(s, p) {
        s.take(s.len() - p.len())
    } else {
        s
    }
}

/// Whether `p` stands in `v` at position `i`.
pub fn stands_at(v: &Vec<char>, p: &Vec<char>, i: usize) -> (r: bool)
    ensures
        r == occurs_at(v@, p@, i as int),
{
    if p.len() > v.len() || i > v.len() - p.len() {
        return false;
    }
    let n: usize = v.len();
    let mut k: usize = 0;
    while k < p.len()
        invariant
            n == v@.len(),
            p@.len() <= v@.len(),
            i <= v@.len() - p@.len(),
            k <= p@.len(),
            forall|j: int| 0 <= j < k ==> v@[i + j] == p@[j],
        decreases p@.len() - k,
    {
        if v[i + k] != p[k] {
            assert(v@.subrange(i as int, i + p@.len())[k as int] != p@[k as int]);
            return false;
        }
        k += 1;
    }
    assert(v@.subrange(i as int, i + p@.len()) =~= p@);
    true
}

/// The first position at or after `from` where `p` stands in `v`.
pub fn find_from(v: &Vec<char>, p: &Vec<char>, from: usize) -> (r: Option<usize>)
    ensures
        match r {
            Some(i) => found_from(v@, p@, from as int) == Some(i as int) && from <= i && i + p@.len()
                <= v@.len(),
            None => found_from(v@, p@, from as int) is None,
        },
{
    if p.len() > v.len() {
        return None;
    }
    let last: usize = v.len() - p.len();
    let mut i: usize = from;
    while i <= last
        invariant
            last == v@.len() - p@.len(),
            from <= i,
            i <= last + 1 || i == from,
            found_from(v@, p@, from as int) == found_from(v@, p@, i as int),
        decreases last + 1 - i,
    {
        if stands_at(v, p, i) {
            return Some(i);
        }
        if i == last {
            assert(found_from(v@, p@, i + 1) is None);
            return None;
        }
        i += 1;
    }
    None
}

/// A position found stands at or after the start, holds the text, and is the first such.
pub proof fn lemma_found(s: Seq<char>, p: Seq<char>, i: int)
    requires
        0 <= i,
    ensures
        match found_from(s, p, i) {
            Some(k) => i <= k && occurs_at(s, p, k) && forall|j: int|
                i <= j < k ==> !occurs_at(s, p, j),
            None => forall|j: int| i <= j ==> !occurs_at(s, p, j),
        },
    decreases s.len() + 1 - i,
{
    if i + p.len() <= s.len() && !occurs_at(s, p, i) {
        lemma_found(s, p, i + 1);
    }
}

/// Whether `s` begins with `p`.
pub fn starts(s: &str, p: &str) -> (r: bool)
    ensures
        r == begins(s@, p@),
{
    stands_at(&chars_of(s), &chars_of(p), 0)
}

/// Whether `s` ends with `p`.
pub fn ends_in(s: &str, p: &str) -> (r: bool)
    ensures
        r == ends(s@, p@),
{
    let v = chars_of(s);
    let q = chars_of(p);
    if q.len() > v.len() {
        false
    } else {
        stands_at(&v, &q, v.len() - q.len())
    }
}

/// Whether `p` stands somewhere in `s`.
pub fn contains(s: &str, p: &str) -> (r: bool)
    ensures
        r == holds_text(s@, p@),
{
    proof {
        lemma_found(s@, p@, 0);
    }
    find_from(&chars_of(s), &chars_of(p), 0).is_some()
}

/// What follows the prefix `p`, where `s` has it.
pub fn strip_prefix<'a>(s: &'a str, p: &str) -> (r: Option<&'a str>)
    ensures
        match r {
            Some(t) => after_prefix(s@, p@) == Some(t@),
            None => after_prefix(s@, p@) is None,
        },
{
    let v = chars_of(s);
    let q = chars_of(p);
    if stands_at(&v, &q, 0) {
        Some(s.substring_char(q.len(), v.len()))
    } else {
        None
    }
}

/// `s` without the suffix `p`, or `s` itself.
pub fn strip_suffix<'a>(s: &'a str, p: &str) -> (r: &'a str)
    ensures
        r@ == without_suffix(s@, p@),
{
    if ends_in(s, p) {
        let v = chars_of(s);
        let q = chars_of(p);
        s.substring_char(0, v.len() - q.len())
    } else {
        s
    }
}

/// `s` with every occurrence of `from` (searched left to right from position
/// `i`, without overlap) replaced by `to`.
pub open spec fn replaced_from(s: Seq<char>, from: Seq<char>, to: Seq<char>, i: int) -> Seq<char>
    recommends
        from.len() > 0,
    decreases s.len() - i,
{
    if i < 0 || i >= s.len() {
        Seq::empty()
    } else if from.len() > 0 && occurs_at(s, from, i) {
        to + replaced_from(s, from, to, i + from.len())
    } else {
        seq![s[i]] + replaced_from(s, from, to, i + 1)
    }
}

/// `s` with every occurrence of the non-empty text `from` replaced by `to`.
pub fn replace(s: &str, from: &str, to: &str) -> (r: String)
    requires
        from@.len() > 0,
    ensures
        r@ == replaced_from(s@, from@, to@, 0),
{
    let v = chars_of(s);
    let p = chars_of(from);
    let mut r = String::new();
    let mut i: usize = 0;
    assert(Seq::<char>::empty() + replaced_from(s@, from@, to@, 0) =~= replaced_from(
        s@,
        from@,
        to@,
        0,
    ));
    while i < v.len()
        invariant
            v@ == s@,
            p@ == from@,
            from@.len() > 0,
            i <= v@.len(),
            r@ + replaced_from(s@, from@, to@, i as int) == replaced_from(s@, from@, to@, 0),
        decreases v@.len() - i,
    {
        let ghost before = r@;
        if stands_at(&v, &p, i) {
            r.append(to);
            proof {
                let rest = replaced_from(s@, from@, to@, i + from@.len());
                assert(before + (to@ + rest) =~= (before + to@) + rest);
            }
            i += p.len();
        } else {
            r.push(v[i]);
            proof {
                let rest = replaced_from(s@, from@, to@, i + 1);
                assert(before + (seq![v@[i as int]] + rest) =~= before.push(v@[i as int]) + rest);
            }
            i += 1;
        }
    }
    assert(r@ + Seq::<char>::empty() =~= r@);
    r
}

// ── Skipping and trimming ─────────────────────────────────────────────

/// The first position at or after `i` with a character outside `k`.
pub open spec fn past(s: Seq<char>, k: Class, i: int) -> int
    decreases s.len() - i,
{
    if 0 <= i < s.len() && k.holds(s[i]) {
        past(s, k, i + 1)
    } else {
        i
    }
}

/// The first position at or after `i` with a character of `k`, or the end.
pub open spec fn upto(s: Seq<char>, k: Class, i: int) -> int
    decreases s.len() - i,
{
    if 0 <= i < s.len() && !k.holds(s[i]) {
        upto(s, k, i + 1)
    } else {
        i
    }
}

/// The position behind the last character outside `k` before position `j`.
pub open spec fn back(s: Seq<char>, k: Class, j: int) -> int
    decreases j,
{
    if 0 < j <= s.len() && k.holds(s[j - 1]) {
        back(s, k, j - 1)
    } else {
        j
    }
}

/// `s` without the characters of `k` at its start.
pub open spec fn trimmed_start(s: Seq<char>, k: Class) -> Seq<char> {
    s.skip(past(s, k, 0))
}

/// `s` without the characters of `k` at its end.
pub open spec fn trimmed_end(s: Seq<char>, k: Class) -> Seq<char> {
    s.take(back(s, k, s.len() as int))
}

/// `s` without the characters of `k` at either end.
pub open spec fn trimmed(s: Seq<char>, k: Class) -> Seq<char> {
    trimmed_end(trimmed_start(s, k), k)
}

/// `s` without white space at either end.
pub open spec fn trim_white(s: Seq<char>) -> Seq<char> {
    trimmed(s, Class::White)
}

/// The first position at or after `from` with a character outside `k`.
pub fn pass(v: &Vec<char>, k: Class, from: usize) -> (r: usize)
    requires
        from <= v@.len(),
    ensures
        r == past(v@, k, from as int),
        from <= r <= v@.len(),
        r < v@.len() ==> !k.holds(v@[r as int]),
{
    let mut i: usize = from;
    while i < v.len() && k.test(v[i])
        invariant
            from <= i <= v@.len(),
            past(v@, k, from as int) == past(v@, k, i as int),
        decreases v@.len() - i,
    {
        i += 1;
    }
    i
}

/// The first position at or after `from` with a character of `k`, or the end.
pub fn reach(v: &Vec<char>, k: Class, from: usize) -> (r: usize)
    requires
        from <= v@.len(),
    ensures
        r == upto(v@, k, from as int),
        from <= r <= v@.len(),
        r < v@.len() ==> k.holds(v@[r as int]),
        forall|j: int| from <= j < r ==> !k.holds(v@[j]),
{
    let mut i: usize = from;
    while i < v.len() && !k.test(v[i])
        invariant
            from <= i <= v@.len(),
            upto(v@, k, from as int) == upto(v@, k, i as int),
            forall|j: int| from <= j < i ==> !k.holds(v@[j]),
        decreases v@.len() - i,
    {
        i += 1;
    }
    i
}

/// `s` without the characters of `k` at its start.
pub fn trim_start<'a>(s: &'a str, k: Class) -> (r: &'a str)
    ensures
        r@ == trimmed_start(s@, k),
{
    let v = chars_of(s);
    let a = pass(&v, k, 0);
    s.substring_char(a, v.len())
}

/// `s` without the characters of `k` at its end.
pub fn trim_end<'a>(s: &'a str, k: Class) -> (r: &'a str)
    ensures
        r@ == trimmed_end(s@, k),
{
    let v = chars_of(s);
    let mut j: usize = v.len();
    while j > 0 && k.test(v[j - 1])
        invariant
            v@ == s@,
            j <= v@.len(),
            back(s@, k, s@.len() as int) == back(s@, k, j as int),
        decreases j,
    {
        j -= 1;
    }
    s.substring_char(0, j)
}

/// `s` without the characters of `k` at either end.
pub fn trim_both<'a>(s: &'a str, k: Class) -> (r: &'a str)
    ensures
        r@ == trimmed(s@, k),
{
    trim_end(trim_start(s, k), k)
}

/// `s` without white space at either end.
pub fn trim<'a>(s: &'a str) -> (r: &'a str)
    ensures
        r@ == trim_white(s@),
{
    trim_both(s, Class::White)
}

// ── Splitting and joining ─────────────────────────────────────────────

/// `s` without a final carriage return.
pub open spec fn without_return(s: Seq<char>) -> Seq<char> {
    if s.len() > 0 && s.last() == '\r' {
        s.drop_last()
    } else {
        s
    }
}

/// The lines of `s` from position `i` on. A line ends at a line feed, or at a
/// carriage return and a line feed; what follows the last line feed is a line
/// of its own where it is not empty.
pub open spec fn lines_from(s: Seq<char>, i: int) -> Seq<Seq<char>>
    decreases s.len() - i,
{
    if i < 0 || i >= s.len() {
        Seq::empty()
    } else {
        let e = upto(s, Class::Is('\n'), i);
        if i <= e < s.len() {
            seq![without_return(s.subrange(i, e))] + lines_from(s, e + 1)
        } else {
            seq![s.skip(i)]
        }
    }
}

/// The lines of `s`.
pub open spec fn lines(s: Seq<char>) -> Seq<Seq<char>> {
    lines_from(s, 0)
}

/// The lines of `s`.
pub fn lines_of(s: &str) -> (r: Vec<String>)
    ensures
        views(r@) == lines(s@),
{
    let v = chars_of(s);
    let mut r: Vec<String> = Vec::new();
    let mut i: usize = 0;
    assert(views(r@) + lines_from(s@, 0) =~= lines(s@));
    while i < v.len()
        invariant
            v@ == s@,
            i <= v@.len(),
            views(r@) + lines_from(s@, i as int) == lines(s@),
        decreases v@.len() - i,
    {
        let ghost before = r@;
        let e = reach(&v, Class::Is('\n'), i);
        if e == v.len() {
            r.push(sub_text(&v, i, e));
            assert(s@.subrange(i as int, e as int) =~= s@.skip(i as int));
            assert(views(r@) =~= views(before) + seq![s@.skip(i as int)]);
            i = e;
            assert(lines_from(s@, e as int) =~= Seq::<Seq<char>>::empty());
            assert(views(r@) + lines_from(s@, e as int) =~= views(r@));
        } else {
            let end: usize = if e > i && v[e - 1] == '\r' {
                e - 1
            } else {
                e
            };
            let line = sub_text(&v, i, end);
            assert(line@ =~= without_return(s@.subrange(i as int, e as int)));
            r.push(line);
            proof {
                let l = without_return(s@.subrange(i as int, e as int));
                assert(views(r@) =~= views(before).push(l));
                assert(views(r@) + lines_from(s@, e + 1) =~= views(before) + (seq![l] + lines_from(
                    s@,
                    e + 1,
                )));
            }
            i = e + 1;
        }
    }
    assert(views(r@) + lines_from(s@, i as int) =~= views(r@));
    r
}

/// The pieces of `s` from position `i` on, cut at every `sep`.
pub open spec fn pieces_from(s: Seq<char>, sep: char, i: int) -> Seq<Seq<char>>
    decreases s.len() - i,
{
    let e = upto(s, Class::Is(sep), i);
    if 0 <= i <= e < s.len() {
        seq![s.subrange(i, e)] + pieces_from(s, sep, e + 1)
    } else {
        seq![s.skip(i)]
    }
}

/// The pieces of `s` between the occurrences of `sep`: always one more than
/// there are occurrences.
pub open spec fn pieces(s: Seq<char>, sep: char) -> Seq<Seq<char>> {
    pieces_from(s, sep, 0)
}

/// The pieces of `s` between the occurrences of `sep`.
pub fn split(s: &str, sep: char) -> (r: Vec<String>)
    ensures
        views(r@) == pieces(s@, sep),
        r@.len() >= 1,
{
    let v = chars_of(s);
    let mut r: Vec<String> = Vec::new();
    let mut i: usize = 0;
    let mut e: usize = reach(&v, Class::Is(sep), 0);
    assert(views(r@) + pieces_from(s@, sep, 0) =~= pieces(s@, sep));
    while e < v.len()
        invariant
            v@ == s@,
            i <= e <= v@.len(),
            e == upto(s@, Class::Is(sep), i as int),
            views(r@) + pieces_from(s@, sep, i as int) == pieces(s@, sep),
        decreases v@.len() - e,
    {
        let ghost before = r@;
        r.push(sub_text(&v, i, e));
        proof {
            let p = s@.subrange(i as int, e as int);
            assert(views(r@) =~= views(before).push(p));
            assert(views(r@) + pieces_from(s@, sep, e + 1) =~= views(before) + (seq![p]
                + pieces_from(s@, sep, e + 1)));
        }
        i = e + 1;
        e = reach(&v, Class::Is(sep), i);
    }
    let ghost before = r@;
    r.push(sub_text(&v, i, e));
    assert(s@.subrange(i as int, e as int) =~= s@.skip(i as int));
    assert(views(r@) =~= views(before) + seq![s@.skip(i as int)]);
    r
}

/// What precedes and what follows the first character of `k`, where there is one.
pub open spec fn cut(s: Seq<char>, k: Class) -> Option<(Seq<char>, Seq<char>)> {
    let e = upto(s, k, 0);
    if e < s.len() {
        Some((s.take(e), s.skip(e + 1)))
    } else {
        None
    }
}

/// What precedes and what follows the first character of `k`, where there is one.
pub fn split_once<'a>(s: &'a str, k: Class) -> (r: Option<(&'a str, &'a str)>)
    ensures
        match r {
            Some((a, b)) => cut(s@, k) == Some((a@, b@)),
            None => cut(s@, k) is None,
        },
{
    let v = chars_of(s);
    let e = reach(&v, k, 0);
    if e < v.len() {
        Some((s.substring_char(0, e), s.substring_char(e + 1, v.len())))
    } else {
        None
    }
}

/// The words of `s` from position `i` on: its longest runs of characters that
/// are not white space.
pub open spec fn words_from(s: Seq<char>, i: int) -> Seq<Seq<char>>
    decreases s.len() - i,
{
    let a = past(s, Class::White, i);
    let b = upto(s, Class::White, a);
    if 0 <= i <= a < b <= s.len() {
        seq![s.subrange(a, b)] + words_from(s, b)
    } else {
        Seq::empty()
    }
}

/// The words of `s`.
pub open spec fn words(s: Seq<char>) -> Seq<Seq<char>> {
    words_from(s, 0)
}

/// The words of `s`.
pub fn words_of(s: &str) -> (r: Vec<String>)
    ensures
        views(r@) == words(s@),
{
    let v = chars_of(s);
    let mut r: Vec<String> = Vec::new();
    let mut i: usize = 0;
    assert(views(r@) + words_from(s@, 0) =~= words(s@));
    while i < v.len()
        invariant
            v@ == s@,
            i <= v@.len(),
            views(r@) + words_from(s@, i as int) == words(s@),
        decreases v@.len() - i,
    {
        let ghost before = r@;
        let a = pass(&v, Class::White, i);
        let b = reach(&v, Class::White, a);
        if a < v.len() {
            assert(a < b) by {
                assert(upto(v@, Class::White, a as int) == upto(v@, Class::White, a + 1));
                lemma_upto_bounds(v@, Class::White, a + 1);
            }
            r.push(sub_text(&v, a, b));
            proof {
                let w = s@.subrange(a as int, b as int);
                assert(views(r@) =~= views(before).push(w));
                assert(views(r@) + words_from(s@, b as int) =~= views(before) + (seq![w]
                    + words_from(s@, b as int)));
            }
        } else {
            assert(b == a);
            assert(words_from(s@, i as int) =~= Seq::<Seq<char>>::empty());
            assert(words_from(s@, b as int) =~= Seq::<Seq<char>>::empty());
        }
        i = b;
    }
    assert(words_from(s@, i as int) =~= Seq::<Seq<char>>::empty());
    assert(views(r@) + words_from(s@, i as int) =~= views(r@));
    r
}

/// A position reached lies between the start and the end.
pub proof fn lemma_upto_bounds(s: Seq<char>, k: Class, i: int)
    requires
        0 <= i <= s.len(),
    ensures
        i <= upto(s, k, i) <= s.len(),
        upto(s, k, i) < s.len() ==> k.holds(s[upto(s, k, i)]),
        forall|j: int| i <= j < upto(s, k, i) ==> !k.holds(s[j]),
    decreases s.len() - i,
{
    if i < s.len() && !k.holds(s[i]) {
        lemma_upto_bounds(s, k, i + 1);
    }
}

/// The first position of `k` at or after `i` is the one that has no other before it.
pub proof fn lemma_upto_is(s: Seq<char>, k: Class, i: int, e: int)
    requires
        0 <= i <= e <= s.len(),
        forall|j: int| i <= j < e ==> !k.holds(#[trigger] s[j]),
        e < s.len() ==> k.holds(s[e]),
    ensures
        upto(s, k, i) == e,
    decreases e - i,
{
    if i < e {
        assert(!k.holds(s[i]));
        lemma_upto_is(s, k, i + 1, e);
    }
}

/// A text whose ends do not belong to `k` has nothing to trim.
pub proof fn lemma_nothing_to_trim(s: Seq<char>, k: Class)
    requires
        s.len() > 0,
        !k.holds(s[0]),
        !k.holds(s.last()),
    ensures
        trimmed_start(s, k) == s,
        trimmed_end(s, k) == s,
        trimmed(s, k) == s,
{
    assert(past(s, k, 0) == 0);
    assert(s.skip(0) =~= s);
    assert(back(s, k, s.len() as int) == s.len());
    assert(s.take(s.len() as int) =~= s);
}

/// The lines one behind the other, each with its line feed.
pub open spec fn terminated(ls: Seq<Seq<char>>) -> Seq<char>
    decreases ls.len(),
{
    if ls.len() == 0 {
        Seq::empty()
    } else {
        terminated(ls.drop_last()) + ls.last().push('\n')
    }
}

/// The lines one behind the other, each with its line feed.
pub fn terminate(ls: &Vec<String>) -> (r: String)
    ensures
        r@ == terminated(views(ls@)),
{
    let mut r = String::new();
    let mut i: usize = 0;
    assert(views(ls@).take(0) =~= Seq::<Seq<char>>::empty());
    while i < ls.len()
        invariant
            i <= ls@.len(),
            r@ == terminated(views(ls@).take(i as int)),
        decreases ls@.len() - i,
    {
        let ghost before = r@;
        r.append(ls[i].as_str());
        r.push('\n');
        proof {
            let next = views(ls@).take(i as int + 1);
            assert(next.drop_last() =~= views(ls@).take(i as int));
            assert(next.last() == ls@[i as int]@);
            assert(r@ =~= before + ls@[i as int]@.push('\n'));
        }
        i += 1;
    }
    assert(views(ls@).take(i as int) =~= views(ls@));
    r
}

/// One of the keys stands in `s`.
pub open spec fn any_in(s: Seq<char>, keys: Seq<Seq<char>>) -> bool {
    exists|i: int| 0 <= i < keys.len() && holds_text(s, #[trigger] keys[i])
}

/// Whether one of the keys stands in `s`.
pub fn has_any(s: &str, keys: &Vec<String>) -> (r: bool)
    ensures
        r == any_in(s@, views(keys@)),
{
    let mut i: usize = 0;
    while i < keys.len()
        invariant
            i <= keys@.len(),
            forall|k: int| 0 <= k < i ==> !holds_text(s@, #[trigger] views(keys@)[k]),
        decreases keys@.len() - i,
    {
        assert(views(keys@)[i as int] == keys@[i as int]@);
        if contains(s, keys[i].as_str()) {
            return true;
        }
        i += 1;
    }
    false
}

/// The lines among the first `n` in which one of the keys stands.
pub open spec fn lines_with(ls: Seq<Seq<char>>, keys: Seq<Seq<char>>, n: int) -> Seq<Seq<char>>
    decreases n,
{
    if n <= 0 {
        Seq::empty()
    } else if any_in(ls[n - 1], keys) {
        lines_with(ls, keys, n - 1).push(ls[n - 1])
    } else {
        lines_with(ls, keys, n - 1)
    }
}

/// The lines of a text in which one of the keys stands.
pub open spec fn grepped(s: Seq<char>, keys: Seq<Seq<char>>) -> Seq<Seq<char>> {
    lines_with(lines(s), keys, lines(s).len() as int)
}

/// The lines of a text in which one of the keys stands.
pub fn grep(s: &str, keys: &Vec<String>) -> (r: Vec<String>)
    ensures
        views(r@) == grepped(s@, views(keys@)),
{
    let ls = lines_of(s);
    let mut r: Vec<String> = Vec::new();
    assert(views(r@) =~= Seq::<Seq<char>>::empty());
    let mut i: usize = 0;
    while i < ls.len()
        invariant
            views(ls@) == lines(s@),
            i <= ls@.len(),
            views(r@) == lines_with(lines(s@), views(keys@), i as int),
        decreases ls@.len() - i,
    {
        assert(views(ls@)[i as int] == ls@[i as int]@);
        if has_any(ls[i].as_str(), keys) {
            let ghost before = views(r@);
            r.push(ls[i].clone());
            assert(views(r@) =~= before.push(lines(s@)[i as int]));
        }
        i += 1;
    }
    r
}

/// The last `n` of some lines.
pub open spec fn last_lines(ls: Seq<Seq<char>>, n: int) -> Seq<Seq<char>> {
    if ls.len() <= n {
        ls
    } else {
        ls.skip(ls.len() - n)
    }
}

/// The last `n` lines of a text.
pub fn tail_lines(s: &str, n: usize) -> (r: Vec<String>)
    ensures
        views(r@) == last_lines(lines(s@), n as int),
{
    let ls = lines_of(s);
    assert(views(ls@).len() == ls@.len());
    let start: usize = if ls.len() <= n {
        0
    } else {
        ls.len() - n
    };
    let mut r: Vec<String> = Vec::new();
    let mut i: usize = start;
    while i < ls.len()
        invariant
            start <= i <= ls@.len(),
            r@.len() == i - start,
            forall|k: int| 0 <= k < r@.len() ==> r@[k]@ == ls@[start + k]@,
        decreases ls@.len() - i,
    {
        r.push(ls[i].clone());
        i += 1;
    }
    assert(views(r@) =~= last_lines(lines(s@), n as int));
    r
}

/// A line: it holds no line feed, and does not end in a carriage return.
pub open spec fn is_line(l: Seq<char>) -> bool {
    &&& forall|i: int| 0 <= i < l.len() ==> #[trigger] l[i] != '\n'
    &&& l.len() > 0 ==> l.last() != '\r'
}

/// Lines joined by line feeds, with one more at the end, are terminated lines.
pub proof fn lemma_joined_is_terminated(ls: Seq<Seq<char>>)
    requires
        ls.len() > 0,
    ensures
        joined(ls, "\n"@) + "\n"@ == terminated(ls),
    decreases ls.len(),
{
    reveal_strlit("\n");
    if ls.len() == 1 {
        assert(terminated(ls.drop_last()) =~= Seq::<char>::empty());
        assert(joined(ls, "\n"@) + "\n"@ =~= terminated(ls));
    } else {
        lemma_joined_is_terminated(ls.drop_last());
        assert(joined(ls, "\n"@) + "\n"@ =~= terminated(ls));
    }
}

/// The first lines, terminated, are the beginning of all of them.
pub proof fn lemma_terminated_prefix(ls: Seq<Seq<char>>, k: int)
    requires
        0 <= k <= ls.len(),
    ensures
        terminated(ls.take(k)).len() <= terminated(ls).len(),
        terminated(ls.take(k)) == terminated(ls).take(terminated(ls.take(k)).len() as int),
    decreases ls.len(),
{
    if k == ls.len() {
        assert(ls.take(k) =~= ls);
        assert(terminated(ls).take(terminated(ls).len() as int) =~= terminated(ls));
    } else {
        let d = ls.drop_last();
        lemma_terminated_prefix(d, k);
        assert(d.take(k) =~= ls.take(k));
        assert(terminated(ls) == terminated(d) + ls.last().push('\n'));
        assert(terminated(ls).take(terminated(ls.take(k)).len() as int) =~= terminated(d).take(
            terminated(ls.take(k)).len() as int,
        ));
    }
}

/// The lines without a final carriage return each.
pub open spec fn without_returns(ls: Seq<Seq<char>>) -> Seq<Seq<char>> {
    Seq::new(ls.len(), |i: int| without_return(ls[i]))
}

/// No line holds a line feed.
pub open spec fn no_feeds(ls: Seq<Seq<char>>) -> bool {
    forall|i: int, j: int| 0 <= i < ls.len() && 0 <= j < ls[i].len() ==> #[trigger] ls[i][j] != '\n'
}

/// Behind the first `k` terminated lines, the others are found again.
pub proof fn lemma_lines_behind(ls: Seq<Seq<char>>, k: int)
    requires
        0 <= k <= ls.len(),
        no_feeds(ls),
    ensures
        lines_from(terminated(ls), terminated(ls.take(k)).len() as int) == without_returns(ls).skip(k),
    decreases ls.len() - k,
{
    let s = terminated(ls);
    let o = terminated(ls.take(k)).len() as int;
    if k == ls.len() {
        assert(ls.take(k) =~= ls);
        assert(without_returns(ls).skip(k) =~= Seq::<Seq<char>>::empty());
    } else {
        let l = ls[k];
        let next = ls.take(k + 1);
        assert(next.drop_last() =~= ls.take(k));
        assert(terminated(next) == terminated(ls.take(k)) + l.push('\n'));
        lemma_terminated_prefix(ls, k + 1);
        let e = o + l.len();
        assert(terminated(next).len() == e + 1);
        assert forall|j: int| o <= j <= e implies #[trigger] s[j] == l.push('\n')[j - o] by {
            assert(s.take(e + 1)[j] == s[j]);
            assert(terminated(next)[j] == l.push('\n')[j - o]);
        }
        assert forall|j: int| o <= j < e implies !Class::Is('\n').holds(#[trigger] s[j]) by {
            assert(ls[k][j - o] != '\n');
        }
        assert(s[e] == '\n');
        lemma_upto_is(s, Class::Is('\n'), o, e);
        assert(s.subrange(o, e) =~= l);
        lemma_lines_behind(ls, k + 1);
        assert(seq![without_return(l)] + without_returns(ls).skip(k + 1) =~= without_returns(
            ls,
        ).skip(k));
    }
}

/// Terminated lines are read back, without a final carriage return each.
pub proof fn lemma_lines_of_terminated(ls: Seq<Seq<char>>)
    requires
        no_feeds(ls),
    ensures
        lines(terminated(ls)) == without_returns(ls),
{
    lemma_lines_behind(ls, 0);
    assert(ls.take(0) =~= Seq::<Seq<char>>::empty());
    assert(without_returns(ls).skip(0) =~= without_returns(ls));
}

/// The parts one behind the other, with `sep` between neighbours.
pub open spec fn joined(parts: Seq<Seq<char>>, sep: Seq<char>) -> Seq<char>
    decreases parts.len(),
{
    if parts.len() == 0 {
        Seq::empty()
    } else if parts.len() == 1 {
        parts[0]
    } else {
        joined(parts.drop_last(), sep) + sep + parts.last()
    }
}

/// The parts one behind the other, with `sep` between neighbours.
pub fn join(parts: &Vec<String>, sep: &str) -> (r: String)
    ensures
        r@ == joined(views(parts@), sep@),
{
    let mut r = String::new();
    let mut i: usize = 0;
    assert(views(parts@).take(0) =~= Seq::<Seq<char>>::empty());
    while i < parts.len()
        invariant
            i <= parts@.len(),
            r@ == joined(views(parts@).take(i as int), sep@),
        decreases parts@.len() - i,
    {
        if i > 0 {
            r.append(sep);
        }
        r.append(parts[i].as_str());
        proof {
            let next = views(parts@).take(i as int + 1);
            assert(next.drop_last() =~= views(parts@).take(i as int));
            assert(next.last() == parts@[i as int]@);
            if i == 0 {
                assert(r@ =~= parts@[0]@);
            }
        }
        i += 1;
    }
    assert(views(parts@).take(i as int) =~= views(parts@));
    r
}

// ── Decimal numbers ───────────────────────────────────────────────────

/// The character of one decimal digit.
pub open spec fn digit_char(d: nat) -> char {
    (48 + d) as char
}

/// `n` in decimal, without leading zeros.
pub open spec fn decimal(n: nat) -> Seq<char>
    decreases n,
{
    if n < 10 {
        seq![digit_char(n)]
    } else {
        decimal(n / 10).push(digit_char(n % 10))
    }
}

/// `n` in decimal, with zeros in front up to `width` characters.
pub open spec fn padded(n: nat, width: nat) -> Seq<char> {
    let d = decimal(n);
    if d.len() < width {
        Seq::new((width - d.len()) as nat, |i: int| '0') + d
    } else {
        d
    }
}

/// `n` in decimal.
pub fn show(n: u64) -> (r: String)
    ensures
        r@ == decimal(n as nat),
    decreases n,
{
    if n < 10 {
        let mut r = String::new();
        r.push((48 + n as u8) as char);
        assert(r@ =~= seq![digit_char(n as nat)]);
        r
    } else {
        let mut r = show(n / 10);
        let d: u8 = (n % 10) as u8;
        r.push((48 + d) as char);
        r
    }
}

/// `n` in decimal, with a sign where it is negative.
pub open spec fn signed_decimal(n: int) -> Seq<char> {
    if n < 0 {
        seq!['-'] + decimal((-n) as nat)
    } else {
        decimal(n as nat)
    }
}

/// `n` in decimal, with a sign where it is negative.
pub fn show_signed(n: i64) -> (r: String)
    ensures
        r@ == signed_decimal(n as int),
{
    if n < 0 {
        let m: u64 = if n == i64::MIN {
            0x8000_0000_0000_0000
        } else {
            (-n) as u64
        };
        let mut r = String::new();
        r.push('-');
        r.append(show(m).as_str());
        assert(r@ =~= seq!['-'] + decimal(m as nat));
        r
    } else {
        show(n as u64)
    }
}

/// `n` in decimal, with zeros in front up to `width` characters.
pub fn show_padded(n: u64, width: usize) -> (r: String)
    ensures
        r@ == padded(n as nat, width as nat),
{
    let d = show(n);
    let len: usize = chars_of(d.as_str()).len();
    let mut r = String::new();
    if len < width {
        let k: usize = width - len;
        let mut i: usize = 0;
        while i < k
            invariant
                i <= k,
                r@ =~= Seq::new(i as nat, |j: int| '0'),
            decreases k - i,
        {
            r.push('0');
            i += 1;
        }
    }
    r.append(d.as_str());
    assert(r@ =~= padded(n as nat, width as nat));
    r
}

/// `s` with spaces in front up to `width` characters.
pub open spec fn aligned(s: Seq<char>, width: nat) -> Seq<char> {
    if s.len() < width {
        Seq::new((width - s.len()) as nat, |i: int| ' ') + s
    } else {
        s
    }
}

/// `s` with spaces in front up to `width` characters.
pub fn align(s: &str, width: usize) -> (r: String)
    ensures
        r@ == aligned(s@, width as nat),
{
    let len: usize = chars_of(s).len();
    let mut r = String::new();
    if len < width {
        let k: usize = width - len;
        let mut i: usize = 0;
        while i < k
            invariant
                i <= k,
                r@ =~= Seq::new(i as nat, |j: int| ' '),
            decreases k - i,
        {
            r.push(' ');
            i += 1;
        }
    }
    r.append(s);
    assert(r@ =~= aligned(s@, width as nat));
    r
}

/// Every character of `s` is a decimal digit.
pub open spec fn all_digits(s: Seq<char>) -> bool {
    forall|i: int| 0 <= i < s.len() ==> is_digit(s[i])
}

/// The number that the digits of `s` write.
pub open spec fn digits_value(s: Seq<char>) -> nat
    decreases s.len(),
{
    if s.len() == 0 {
        0
    } else {
        digits_value(s.drop_last()) * 10 + (s.last() as nat - 48) as nat
    }
}

/// The digits of a decimal number: `s` without a leading plus sign.
pub open spec fn digits_of(s: Seq<char>) -> Seq<char> {
    if s.len() > 0 && s[0] == '+' {
        s.skip(1)
    } else {
        s
    }
}

/// The number that `s` writes, where `s` is a run of decimal digits, with or
/// without a plus sign in front, and the number is at most `max`.
pub open spec fn number(s: Seq<char>, max: nat) -> Option<nat> {
    let d = digits_of(s);
    if d.len() > 0 && all_digits(d) && digits_value(d) <= max {
        Some(digits_value(d))
    } else {
        None
    }
}

/// More digits never write a smaller number.
pub proof fn lemma_digits_grow(s: Seq<char>, i: int)
    requires
        0 <= i <= s.len(),
    ensures
        digits_value(s.take(i)) <= digits_value(s),
    decreases s.len() - i,
{
    if i < s.len() {
        lemma_digits_grow(s, i + 1);
        assert(s.take(i + 1).drop_last() =~= s.take(i));
        assert(digits_value(s.take(i + 1)) >= digits_value(s.take(i)) * 10);
    } else {
        assert(s.take(i) =~= s);
    }
}

/// The number that `s` writes, where it writes one that is at most `max`.
pub fn parse(s: &str, max: u64) -> (r: Option<u64>)
    ensures
        match r {
            Some(n) => number(s@, max as nat) == Some(n as nat),
            None => number(s@, max as nat) is None,
        },
        r matches Some(n) ==> n <= max,
{
    let v = chars_of(s);
    let start: usize = if v.len() > 0 && v[0] == '+' {
        1
    } else {
        0
    };
    let ghost d = digits_of(s@);
    assert(d =~= s@.skip(start as int));
    if v.len() == start {
        return None;
    }
    let mut value: u64 = 0;
    let mut i: usize = start;
    assert(d.take(0) =~= Seq::<char>::empty());
    while i < v.len()
        invariant
            v@ == s@,
            d == digits_of(s@),
            d == s@.skip(start as int),
            start <= i <= v@.len(),
            start < v@.len(),
            value <= max,
            value == digits_value(d.take(i - start)),
            forall|j: int| 0 <= j < i - start ==> is_digit(d[j]),
        decreases v@.len() - i,
    {
        let c = v[i];
        assert(d[i - start] == c);
        if !digit(c) {
            return None;
        }
        let x: u64 = (c as u8 - 48) as u64;
        let next: u128 = value as u128 * 10 + x as u128;
        proof {
            assert(d.take(i - start + 1).drop_last() =~= d.take(i - start));
            assert(next == digits_value(d.take(i - start + 1)));
            lemma_digits_grow(d, i - start + 1);
        }
        if next > max as u128 {
            return None;
        }
        value = next as u64;
        i += 1;
    }
    assert(d.take(i - start) =~= d);
    Some(value)
}

/// The number that `s` writes, or `default` where it writes none up to `max`.
pub fn parse_or(s: &str, max: u64, default: u64) -> (r: u64)
    requires
        default <= max,
    ensures
        r as nat == number(s@, max as nat).unwrap_or(default as nat),
        r <= max,
{
    match parse(s, max) {
        Some(n) => n,
        None => default,
    }
}

// ── Numbers are read back as they are written ─────────────────────────

/// What `decimal` writes are digits that stand for the number.
pub proof fn lemma_decimal_reads_back(n: nat)
    ensures
        decimal(n).len() > 0,
        all_digits(decimal(n)),
        digits_value(decimal(n)) == n,
    decreases n,
{
    if n < 10 {
        let d = decimal(n);
        assert(d.drop_last() =~= Seq::<char>::empty());
        assert(digits_value(d.drop_last()) == 0);
        assert(d.last() as nat == 48 + n);
    } else {
        lemma_decimal_reads_back(n / 10);
        let d = decimal(n);
        assert(d.drop_last() =~= decimal(n / 10));
        assert(d.last() as nat == 48 + n % 10);
        assert forall|i: int| 0 <= i < d.len() implies is_digit(d[i]) by {
            if i < d.len() - 1 {
                assert(d[i] == decimal(n / 10)[i]);
            }
        }
    }
}

/// Zeros in front do not change a number.
pub proof fn lemma_leading_zeros(k: nat, s: Seq<char>)
    ensures
        digits_value(Seq::new(k, |i: int| '0') + s) == digits_value(s),
    decreases k + s.len(),
{
    let z = Seq::new(k, |i: int| '0');
    let t = z + s;
    if s.len() > 0 {
        assert(t.drop_last() =~= z + s.drop_last());
        lemma_leading_zeros(k, s.drop_last());
    } else if k > 0 {
        assert(t.drop_last() =~= Seq::new((k - 1) as nat, |i: int| '0') + s);
        lemma_leading_zeros((k - 1) as nat, s);
        assert(t.last() == '0');
    } else {
        assert(t =~= s);
    }
}

/// A padded number is read back.
pub proof fn lemma_padded_reads_back(n: nat, width: nat, max: nat)
    requires
        n <= max,
    ensures
        padded(n, width).len() > 0,
        padded(n, width).len() >= width,
        all_digits(padded(n, width)),
        number(padded(n, width), max) == Some(n),
{
    let d = decimal(n);
    lemma_decimal_reads_back(n);
    if d.len() < width {
        let k = (width - d.len()) as nat;
        lemma_leading_zeros(k, d);
        let p = padded(n, width);
        assert forall|i: int| 0 <= i < p.len() implies is_digit(p[i]) by {
            if i >= k {
                assert(p[i] == d[i - k]);
            }
        }
    }
    let p = padded(n, width);
    assert(is_digit(p[0]));
    assert(digits_of(p) == p);
}

/// A number below a power of ten has no more digits than that has zeros.
pub proof fn lemma_decimal_len(n: nat, k: nat)
    requires
        n < vstd::arithmetic::power::pow(10, k),
        k > 0,
    ensures
        decimal(n).len() <= k,
    decreases k,
{
    if n >= 10 {
        if k == 1 {
            vstd::arithmetic::power::lemma_pow1(10);
        } else {
            vstd::arithmetic::power::lemma_pow_adds(10, (k - 1) as nat, 1);
            vstd::arithmetic::power::lemma_pow1(10);
            let p = vstd::arithmetic::power::pow(10, (k - 1) as nat);
            assert(n / 10 < p) by (nonlinear_arith)
                requires
                    n < p * 10,
            ;
            lemma_decimal_len(n / 10, (k - 1) as nat);
        }
    }
}

/// Three pieces without the separator, joined by it, are found again.
pub proof fn lemma_three_pieces(a: Seq<char>, b: Seq<char>, c: Seq<char>, sep: char)
    requires
        forall|i: int| 0 <= i < a.len() ==> #[trigger] a[i] != sep,
        forall|i: int| 0 <= i < b.len() ==> #[trigger] b[i] != sep,
        forall|i: int| 0 <= i < c.len() ==> #[trigger] c[i] != sep,
    ensures
        pieces(a.push(sep) + b.push(sep) + c, sep) == seq![a, b, c],
{
    let s = a.push(sep) + b.push(sep) + c;
    let k = Class::Is(sep);
    let p = a.len() as int;
    let q = p + 1 + b.len();
    assert forall|j: int| 0 <= j < p implies !k.holds(#[trigger] s[j]) by {
        assert(s[j] == a[j]);
    }
    assert(s[p] == sep);
    lemma_upto_is(s, k, 0, p);
    assert forall|j: int| p + 1 <= j < q implies !k.holds(#[trigger] s[j]) by {
        assert(s[j] == b[j - p - 1]);
    }
    assert(s[q] == sep);
    lemma_upto_is(s, k, p + 1, q);
    assert forall|j: int| q + 1 <= j < s.len() implies !k.holds(#[trigger] s[j]) by {
        assert(s[j] == c[j - q - 1]);
    }
    lemma_upto_is(s, k, q + 1, s.len() as int);
    assert(s.subrange(0, p) =~= a);
    assert(s.subrange(p + 1, q) =~= b);
    assert(s.skip(q + 1) =~= c);
    assert(pieces_from(s, sep, q + 1) == seq![c]);
    assert(pieces_from(s, sep, p + 1) == seq![b] + seq![c]);
    assert(pieces_from(s, sep, 0) == seq![a] + (seq![b] + seq![c]));
    assert(seq![a] + (seq![b] + seq![c]) =~= seq![a, b, c]);
}

// ── Lines of texts put together ───────────────────────────────────────

/// No line holds a line feed.
pub proof fn lemma_lines_hold_no_feed(s: Seq<char>, i: int, n: int)
    requires
        0 <= i,
        0 <= n < lines_from(s, i).len(),
    ensures
        forall|j: int| 0 <= j < lines_from(s, i)[n].len() ==> #[trigger] lines_from(s, i)[n][j] != '\n',
    decreases s.len() - i,
{
    if i < s.len() {
        let e = upto(s, Class::Is('\n'), i);
        lemma_upto_bounds(s, Class::Is('\n'), i);
        if e < s.len() {
            let first = without_return(s.subrange(i, e));
            let rest = lines_from(s, e + 1);
            assert(lines_from(s, i) == seq![first] + rest);
            if n > 0 {
                lemma_lines_hold_no_feed(s, e + 1, n - 1);
                assert(lines_from(s, i)[n] == rest[n - 1]);
            } else {
                assert forall|j: int| 0 <= j < first.len() implies #[trigger] first[j] != '\n' by {
                    assert(first[j] == s[i + j]);
                    assert(!Class::Is('\n').holds(s[i + j]));
                }
            }
        } else {
            let only = s.skip(i);
            assert forall|j: int| 0 <= j < only.len() implies #[trigger] only[j] != '\n' by {
                assert(!Class::Is('\n').holds(s[i + j]));
            }
        }
    }
}

/// The next occurrence in the second of two texts, seen from its start or
/// further on.
pub proof fn lemma_upto_shifted(a: Seq<char>, b: Seq<char>, k: Class, j: int)
    requires
        0 <= j <= b.len(),
    ensures
        upto(a + b, k, a.len() + j) == a.len() + upto(b, k, j),
    decreases b.len() - j,
{
    if j < b.len() {
        assert((a + b)[a.len() + j] == b[j]);
        if !k.holds(b[j]) {
            lemma_upto_shifted(a, b, k, j + 1);
        }
    }
}

/// The lines behind the first of two texts are those of the second.
pub proof fn lemma_lines_shifted(a: Seq<char>, b: Seq<char>, j: int)
    requires
        0 <= j <= b.len(),
    ensures
        lines_from(a + b, a.len() + j) == lines_from(b, j),
    decreases b.len() - j,
{
    let s = a + b;
    if j < b.len() {
        lemma_upto_shifted(a, b, Class::Is('\n'), j);
        lemma_upto_bounds(b, Class::Is('\n'), j);
        let e = upto(b, Class::Is('\n'), j);
        if e < b.len() {
            assert(s.subrange(a.len() + j, a.len() + e) =~= b.subrange(j, e));
            lemma_lines_shifted(a, b, e + 1);
        } else {
            assert(s.skip(a.len() + j) =~= b.skip(j));
        }
    }
}

/// Where the first of two texts is complete, the lines of both are those of the
/// first and those of the second.
pub proof fn lemma_lines_concat(a: Seq<char>, b: Seq<char>, i: int)
    requires
        0 <= i <= a.len(),
        i < a.len() ==> a.last() == '\n',
    ensures
        lines_from(a + b, i) == lines_from(a, i) + lines(b),
    decreases a.len() - i,
{
    let s = a + b;
    if i == a.len() {
        lemma_lines_shifted(a, b, 0);
        assert(lines_from(a, i) =~= Seq::<Seq<char>>::empty());
        assert(lines_from(a, i) + lines(b) =~= lines(b));
    } else {
        let k = Class::Is('\n');
        let e = upto(a, k, i);
        lemma_upto_bounds(a, k, i);
        if e == a.len() {
            assert(!k.holds(a[a.len() - 1]));
        }
        assert forall|j: int| i <= j < e implies !k.holds(#[trigger] s[j]) by {
            assert(!k.holds(a[j]));
        }
        assert(s[e] == a[e]);
        lemma_upto_is(s, k, i, e);
        assert(s.subrange(i, e) =~= a.subrange(i, e));
        lemma_lines_concat(a, b, e + 1);
        let first = without_return(a.subrange(i, e));
        assert(seq![first] + (lines_from(a, e + 1) + lines(b)) =~= (seq![first] + lines_from(
            a,
            e + 1,
        )) + lines(b));
    }
}

/// Trimming white space does not see a final carriage return.
pub proof fn lemma_trim_ignores_return(l: Seq<char>)
    ensures
        trim_white(without_return(l)) == trim_white(l),
{
    if l.len() > 0 && l.last() == '\r' {
        let m = l.drop_last();
        lemma_past_prefix(l, 0);
        let a = past(l, Class::White, 0);
        let b = past(m, Class::White, 0);
        lemma_past_bounds(l, Class::White, 0);
        lemma_past_bounds(m, Class::White, 0);
        let x = trimmed_start(l, Class::White);
        let y = trimmed_start(m, Class::White);
        if b < m.len() {
            assert(a == b);
            assert(x.drop_last() =~= y);
            assert(x.last() == '\r');
            assert(back(x, Class::White, x.len() as int) == back(x, Class::White, x.len() - 1));
            lemma_back_prefix(x, y, y.len() as int);
            lemma_back_bounds(y, Class::White, y.len() as int);
            assert(x.take(back(y, Class::White, y.len() as int)) =~= y.take(
                back(y, Class::White, y.len() as int),
            ));
        } else {
            assert(x =~= Seq::<char>::empty());
            assert(y =~= Seq::<char>::empty());
        }
    }
}

/// A position passed to lies between the start and the end.
pub proof fn lemma_past_bounds(s: Seq<char>, k: Class, i: int)
    requires
        0 <= i <= s.len(),
    ensures
        i <= past(s, k, i) <= s.len(),
    decreases s.len() - i,
{
    if i < s.len() && k.holds(s[i]) {
        lemma_past_bounds(s, k, i + 1);
    }
}

/// A position reached backwards lies between the start and where it began.
pub proof fn lemma_back_bounds(s: Seq<char>, k: Class, j: int)
    requires
        0 <= j <= s.len(),
    ensures
        0 <= back(s, k, j) <= j,
    decreases j,
{
    if j > 0 && k.holds(s[j - 1]) {
        lemma_back_bounds(s, k, j - 1);
    }
}

/// Without a final carriage return the white space at the start is the same, or
/// all there is.
proof fn lemma_past_prefix(l: Seq<char>, i: int)
    requires
        l.len() > 0,
        l.last() == '\r',
        0 <= i < l.len(),
    ensures
        past(l.drop_last(), Class::White, i) < l.len() - 1 ==> past(l, Class::White, i) == past(
            l.drop_last(),
            Class::White,
            i,
        ),
        past(l.drop_last(), Class::White, i) >= l.len() - 1 ==> past(l, Class::White, i)
            == l.len(),
    decreases l.len() - i,
{
    let m = l.drop_last();
    if i < m.len() {
        assert(m[i] == l[i]);
        if is_white(l[i]) {
            lemma_past_prefix(l, i + 1);
        }
    } else {
        assert(is_white(l[i]));
        assert(past(l, Class::White, i + 1) == i + 1);
    }
}

/// Going backwards from within a common beginning leads to the same place.
proof fn lemma_back_prefix(x: Seq<char>, y: Seq<char>, j: int)
    requires
        0 <= j <= y.len() <= x.len(),
        x.take(y.len() as int) == y,
    ensures
        back(x, Class::White, j) == back(y, Class::White, j),
    decreases j,
{
    if j > 0 {
        assert(x.take(y.len() as int)[j - 1] == x[j - 1]);
        if is_white(x[j - 1]) {
            lemma_back_prefix(x, y, j - 1);
        }
    }
}

} // verus!
