//! Commands to be run, and what came of them.

use crate::util::text::{signed_decimal, show_signed, views};
use vstd::prelude::*;

verus! {

/// A program and its arguments.
pub struct CommandLine {
    pub program: String,
    pub args: Vec<String>,
}

/// The view of a `CommandLine`.
pub struct CommandLineView {
    pub program: Seq<char>,
    pub args: Seq<Seq<char>>,
}

impl View for CommandLine {
    type V = CommandLineView;

    open spec fn view(&self) -> CommandLineView {
        CommandLineView { program: self.program@, args: views(self.args@) }
    }
}

/// A program and its arguments.
pub open spec fn line(program: Seq<char>, args: Seq<Seq<char>>) -> CommandLineView {
    CommandLineView { program, args }
}

/// The views of string slices.
pub open spec fn strs(v: Seq<&str>) -> Seq<Seq<char>> {
    Seq::new(v.len(), |i: int| v[i]@)
}

/// Owned copies of string slices.
pub fn owned(v: Vec<&str>) -> (r: Vec<String>)
    ensures
        views(r@) == strs(v@),
{
    let mut r: Vec<String> = Vec::new();
    let mut i: usize = 0;
    while i < v.len()
        invariant
            i <= v@.len(),
            r@.len() == i,
            forall|k: int| 0 <= k < i ==> r@[k]@ == v@[k]@,
        decreases v@.len() - i,
    {
        r.push(v[i].to_owned());
        i += 1;
    }
    assert(views(r@) =~= strs(v@));
    r
}

/// The command that runs `program` with `args`.
pub fn command(program: &str, args: Vec<&str>) -> (r: CommandLine)
    ensures
        r@ == line(program@, strs(args@)),
{
    CommandLine { program: program.to_owned(), args: owned(args) }
}

/// What a command that ran to its end left behind.
pub struct CommandOutput {
    pub success: bool,
    pub code: Option<i32>,
    pub stdout: String,
    pub stderr: String,
}

/// The exit code, or -1 where there is none.
pub open spec fn exit_code(code: Option<i32>) -> int {
    match code {
        Some(c) => c as int,
        None => -1,
    }
}

/// What is said of a command that failed.
pub open spec fn failure(what: Seq<char>, code: Option<i32>, stderr: Seq<char>) -> Seq<char> {
    what + " failed (exit "@ + signed_decimal(exit_code(code)) + "): "@ + stderr
}

/// What is said of a command that failed.
pub fn describe_failure(what: &str, out: &CommandOutput) -> (r: String)
    ensures
        r@ == failure(what@, out.code, out.stderr@),
{
    let code: i64 = match out.code {
        Some(c) => c as i64,
        None => -1,
    };
    let mut r = what.to_owned();
    r.append(" failed (exit ");
    r.append(show_signed(code).as_str());
    r.append("): ");
    r.append(out.stderr.as_str());
    r
}

/// Whether a command succeeded, and if not, what is said of it.
pub fn expect_success(what: &str, out: &CommandOutput) -> (r: Result<(), String>)
    ensures
        r is Ok <==> out.success,
        r matches Err(e) ==> e@ == failure(what@, out.code, out.stderr@),
{
    if out.success {
        Ok(())
    } else {
        Err(describe_failure(what, out))
    }
}

} // verus!
