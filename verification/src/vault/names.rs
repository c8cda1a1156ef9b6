//! What the names in the vault mean.

use crate::util::text::{begins, ends, ends_in, starts};
use vstd::prelude::*;

verus! {

/// The name of a finished SQLite snapshot of the source `label`:
/// `<label>-*.sqlite`.
pub open spec fn snapshot_name(label: Seq<char>, name: Seq<char>) -> bool {
    begins(name, label.push('-')) && ends(name, ".sqlite"@)
}

/// The name of a finished snapshot of the main database: `main-*.sqlite`.
pub open spec fn main_snapshot(name: Seq<char>) -> bool {
    begins(name, "main-"@) && ends(name, ".sqlite"@)
}

/// Whether `name` is that of a finished snapshot of the main database.
pub fn is_main_snapshot(name: &str) -> (r: bool)
    ensures
        r == main_snapshot(name@),
{
    starts(name, "main-") && ends_in(name, ".sqlite")
}

/// Whether `name` is that of a finished snapshot of the source `label`.
pub fn is_snapshot_of(label: &str, name: &str) -> (r: bool)
    ensures
        r == snapshot_name(label@, name@),
{
    let mut prefix = label.to_owned();
    prefix.push('-');
    starts(name, prefix.as_str()) && ends_in(name, ".sqlite")
}

/// A temporary file is never taken for a finished snapshot.
pub proof fn law_unfinished_is_no_snapshot(label: Seq<char>, name: Seq<char>)
    requires
        ends(name, ".tmp"@),
    ensures
        !snapshot_name(label, name),
        !main_snapshot(name),
{
    reveal_strlit(".tmp");
    reveal_strlit(".sqlite");
    let n = name.len();
    if ends(name, ".sqlite"@) {
        assert(name.subrange(n - 4, n as int)[3] == 'p');
        assert(name.subrange(n - 7, n as int)[6] == 'e');
    }
}

} // verus!
