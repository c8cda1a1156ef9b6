//! User management for OuterClaw setup: the commands that create and remove
//! service users, and what their exit codes mean.

use crate::platform::command::{command, expect_success, failure, line, strs, CommandLine, CommandOutput};
use vstd::prelude::*;

verus! {

/// The arguments that create a system user.
pub open spec fn system_user_args(name: Seq<char>, home: Seq<char>, shell: Seq<char>) -> Seq<Seq<char>> {
    seq![
        "--system"@,
        "--shell"@,
        shell,
        "--home-dir"@,
        home,
        "--create-home"@,
        "--comment"@,
        "OuterClaw Service"@,
        name,
    ]
}

/// The command that creates a system user (nologin shell, with home directory).
///
/// Used for the `outerclaw` service user.  If the user already exists, there is
/// nothing to do (idempotent).
pub fn ensure_system_user(name: &str, home: &str, shell: &str, there: bool) -> (r: Option<CommandLine>)
    ensures
        r is None <==> there,
        r matches Some(c) ==> c@ == line("useradd"@, system_user_args(name@, home@, shell@)),
{
    if there {
        return None;
    }
    let args = vec![
        "--system",
        "--shell",
        shell,
        "--home-dir",
        home,
        "--create-home",
        "--comment",
        "OuterClaw Service",
        name,
    ];
    assert(strs(args@) =~= system_user_args(name@, home@, shell@));
    Some(command("useradd", args))
}

/// The arguments that create a login user.
pub open spec fn login_user_args(name: Seq<char>) -> Seq<Seq<char>> {
    seq!["-m"@, "-s"@, "/bin/bash"@, "--comment"@, "OpenClaw Agent (no sudo)"@, name]
}

/// The command that creates a login user (with bash shell, home directory).
///
/// Used for the `ocagent` application user in full mode.  If the user already
/// exists, there is nothing to do (idempotent).
pub fn ensure_login_user(name: &str, there: bool) -> (r: Option<CommandLine>)
    ensures
        r is None <==> there,
        r matches Some(c) ==> c@ == line("useradd"@, login_user_args(name@)),
{
    if there {
        return None;
    }
    let args = vec!["-m", "-s", "/bin/bash", "--comment", "OpenClaw Agent (no sudo)", name];
    assert(strs(args@) =~= login_user_args(name@));
    Some(command("useradd", args))
}

/// `<program> '<name>'`.
pub open spec fn quoted(program: Seq<char>, name: Seq<char>) -> Seq<char> {
    program + " '"@ + name + "'"@
}

/// `<program> '<name>'`.
fn quote(program: &str, name: &str) -> (r: String)
    ensures
        r@ == quoted(program@, name@),
{
    let mut r = program.to_owned();
    r.append(" '");
    r.append(name);
    r.append("'");
    r
}

/// Whether there is a user now: `useradd` succeeded, or the user already exists
/// (exit code 9).
pub fn user_created(name: &str, out: &CommandOutput) -> (r: Result<(), String>)
    ensures
        r is Ok <==> out.success || out.code == Some(9i32),
        r matches Err(e) ==> e@ == failure(quoted("useradd"@, name@), out.code, out.stderr@),
{
    match out.code {
        Some(9) => Ok(()),
        _ => expect_success(quote("useradd", name).as_str(), out),
    }
}

/// The command that removes a system user; none where there is no such user.
pub fn remove_user(name: &str, there: bool) -> (r: Option<CommandLine>)
    ensures
        r is Some <==> there,
        r matches Some(c) ==> c@ == line("userdel"@, seq![name@]),
{
    if !there {
        return None;
    }
    let args = vec![name];
    assert(strs(args@) =~= seq![name@]);
    Some(command("userdel", args))
}

/// Whether there is no such user any more: `userdel` succeeded, or there was
/// none (exit code 6).
pub fn user_removed(name: &str, out: &CommandOutput) -> (r: Result<(), String>)
    ensures
        r is Ok <==> out.success || out.code == Some(6i32),
        r matches Err(e) ==> e@ == failure(quoted("userdel"@, name@), out.code, out.stderr@),
{
    match out.code {
        Some(6) => Ok(()),
        _ => expect_success(quote("userdel", name).as_str(), out),
    }
}

} // verus!
