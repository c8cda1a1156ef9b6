//! Small helpers shared by the other modules.

pub mod calendar;
pub mod json;
pub mod order;
pub mod path;
pub mod size;
pub mod text;
pub mod time_fmt;

use crate::util::text::{alphanumeric, chars_of, is_alphanumeric};
use vstd::prelude::*;

verus! {

/// Letters, digits, `_` and `-`.
pub open spec fn is_name_char(c: char) -> bool {
    is_alphanumeric(c) || c == '_' || c == '-'
}

/// A non-empty run of letters, digits, `_` and `-`.
pub open spec fn is_name(s: Seq<char>) -> bool {
    s.len() > 0 && forall|i: int| 0 <= i < s.len() ==> is_name_char(s[i])
}

/// Validate a session ID (alphanumeric, dash, underscore).
pub fn is_valid_session_id(id: &str) -> (r: bool)
    ensures
        r == is_name(id@),
{
    let v = chars_of(id);
    let mut i: usize = 0;
    while i < v.len()
        invariant
            v@ == id@,
            i <= v@.len(),
            forall|k: int| 0 <= k < i ==> is_name_char(id@[k]),
        decreases v@.len() - i,
    {
        let c = v[i];
        if !(alphanumeric(c) || c == '_' || c == '-') {
            return false;
        }
        i += 1;
    }
    v.len() > 0
}

/// A name grows by a letter, a digit, `_` or `-`, and by nothing else; nothing
/// is no name.
pub proof fn law_names_grow(s: Seq<char>, c: char)
    ensures
        is_name(s.push(c)) <==> (s.len() == 0 || is_name(s)) && ('0' <= c <= '9' || 'a' <= c <= 'z'
            || 'A' <= c <= 'Z' || c == '_' || c == '-'),
        !is_name(Seq::empty()),
{
    let t = s.push(c);
    assert(t[s.len() as int] == c);
    if is_name(t) {
        assert(is_name_char(t[s.len() as int]));
        assert forall|i: int| 0 <= i < s.len() implies is_name_char(s[i]) by {
            assert(t[i] == s[i]);
        }
    }
}

} // verus!
