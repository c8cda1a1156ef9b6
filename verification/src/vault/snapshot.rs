//! Taking a snapshot: SQLite and/or files, based on CLI flags.

use crate::cli::SnapshotArgs;
use vstd::prelude::*;

verus! {

/// Which snapshots the flags ask for: SQLite, and files.
pub fn parts(args: &SnapshotArgs) -> (r: (bool, bool))
    ensures
        r.0 == !args.files_only,
        r.1 == !args.sqlite_only,
{
    (!args.files_only, !args.sqlite_only)
}

/// The exit code of a part: a part that did not run did not fail.
pub open spec fn code_of(part: Option<i32>) -> i32 {
    match part {
        Some(code) => code,
        None => 0,
    }
}

/// The exit code, given the exit codes of the parts that ran: theirs, joined bit
/// by bit, so that it is 0 exactly where no part failed.
pub fn run(sqlite: Option<i32>, files: Option<i32>) -> (r: i32)
    ensures
        r == code_of(sqlite) | code_of(files),
        r == 0 <==> code_of(sqlite) == 0 && code_of(files) == 0,
        code_of(sqlite) == 0 ==> r == code_of(files),
        code_of(files) == 0 ==> r == code_of(sqlite),
        code_of(sqlite) == code_of(files) ==> r == code_of(sqlite),
{
    let mut result: i32 = 0;
    if let Some(code) = sqlite {
        result = code;
    }
    let mut other: i32 = 0;
    if let Some(code) = files {
        other = code;
    }
    assert((result | other) == 0 <==> result == 0 && other == 0) by (bit_vector);
    assert(result == 0 ==> (result | other) == other) by (bit_vector);
    assert(other == 0 ==> (result | other) == result) by (bit_vector);
    assert(result == other ==> (result | other) == result) by (bit_vector);
    result | other
}

} // verus!
