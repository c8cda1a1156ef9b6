//! Uninstalling OuterClaw.

use crate::cli::UninstallArgs;
use crate::platform::command::{command, line, strs, CommandLine};
use vstd::prelude::*;

verus! {

/// What came of a step of the removal.
#[derive(Debug, Clone, Copy, PartialEq, Eq, Structural)]
pub enum Event {
    /// Whether we run as root.
    Root(bool),
    /// Whether the user agreed.
    Confirmed(bool),
    /// Timers and services were stopped and disabled, as far as they could be.
    Stopped,
    /// Their unit files were removed, and systemd reloaded.
    UnitsRemoved,
    /// The sudoers and logrotate files were removed.
    ConfigsRemoved,
    /// The identity files were unlocked, as far as they could be.
    IdentityUnlocked,
    /// The ACLs were removed, as far as they could be.
    AclsRemoved,
    /// Whether the vault is to be removed, where there is one.
    VaultDecided(Option<bool>),
    /// The vault is gone, or stays.
    VaultDone,
    /// Whether the watchdog user is to be removed, where there is one.
    UserDecided(Option<bool>),
    /// The watchdog user is gone, or stays.
    UserDone,
    /// Whether the agent user is to be removed, where there is one.
    AgentDecided(Option<bool>),
    /// The agent user is gone, or stays.
    AgentDone,
}

/// What to do next.
#[derive(Debug, Clone, Copy, PartialEq, Eq, Structural)]
pub enum Action {
    CheckRoot,
    AskConfirmation,
    StopUnits,
    RemoveUnits,
    RemoveConfigs,
    UnlockIdentity,
    RemoveAcls,
    DecideVault,
    RemoveVault,
    KeepVault,
    DecideUser,
    RemoveUser,
    KeepUser,
    DecideAgent,
    RemoveAgent,
    KeepAgent,
    Finish,
    /// Say that nothing was done.
    Abort,
    Fail,
}

/// What follows from an event.
pub open spec fn step(e: Event) -> Action {
    match e {
        Event::Root(true) => Action::AskConfirmation,
        Event::Root(false) => Action::Fail,
        Event::Confirmed(true) => Action::StopUnits,
        Event::Confirmed(false) => Action::Abort,
        Event::Stopped => Action::RemoveUnits,
        Event::UnitsRemoved => Action::RemoveConfigs,
        Event::ConfigsRemoved => Action::UnlockIdentity,
        Event::IdentityUnlocked => Action::RemoveAcls,
        Event::AclsRemoved => Action::DecideVault,
        Event::VaultDecided(Some(true)) => Action::RemoveVault,
        Event::VaultDecided(Some(false)) => Action::KeepVault,
        Event::VaultDecided(None) | Event::VaultDone => Action::DecideUser,
        Event::UserDecided(Some(true)) => Action::RemoveUser,
        Event::UserDecided(Some(false)) => Action::KeepUser,
        Event::UserDecided(None) | Event::UserDone => Action::DecideAgent,
        Event::AgentDecided(Some(true)) => Action::RemoveAgent,
        Event::AgentDecided(Some(false)) => Action::KeepAgent,
        Event::AgentDecided(None) | Event::AgentDone => Action::Finish,
    }
}

/// What to do after an event of the removal, which begins with the check for
/// root.
pub fn uninstall(e: Event) -> (r: Action)
    ensures
        r == step(e),
{
    match e {
        Event::Root(true) => Action::AskConfirmation,
        Event::Root(false) => Action::Fail,
        Event::Confirmed(true) => Action::StopUnits,
        Event::Confirmed(false) => Action::Abort,
        Event::Stopped => Action::RemoveUnits,
        Event::UnitsRemoved => Action::RemoveConfigs,
        Event::ConfigsRemoved => Action::UnlockIdentity,
        Event::IdentityUnlocked => Action::RemoveAcls,
        Event::AclsRemoved => Action::DecideVault,
        Event::VaultDecided(Some(true)) => Action::RemoveVault,
        Event::VaultDecided(Some(false)) => Action::KeepVault,
        Event::VaultDecided(None) | Event::VaultDone => Action::DecideUser,
        Event::UserDecided(Some(true)) => Action::RemoveUser,
        Event::UserDecided(Some(false)) => Action::KeepUser,
        Event::UserDecided(None) | Event::UserDone => Action::DecideAgent,
        Event::AgentDecided(Some(true)) => Action::RemoveAgent,
        Event::AgentDecided(Some(false)) => Action::KeepAgent,
        Event::AgentDecided(None) | Event::AgentDone => Action::Finish,
    }
}

/// The exit code of a removal that ended so: only one that could not be made
/// fails, not one that was declined.
pub fn exit_code(a: Action) -> (r: i32)
    ensures
        r == if a == Action::Fail {
            1i32
        } else {
            0i32
        },
{
    match a {
        Action::Fail => 1,
        _ => 0,
    }
}

/// Whether the user agreed: the flag agrees, else the answer, where there was one.
pub fn confirmed(args: &UninstallArgs, answer: Option<bool>) -> (r: bool)
    ensures
        r == (args.yes || answer == Some(true)),
{
    args.yes || match answer {
        Some(a) => a,
        None => false,
    }
}

/// Whether the vault is to be removed: a flag says so, else the answer, where
/// there was one.
pub fn vault_goes(args: &UninstallArgs, answer: Option<bool>) -> (r: bool)
    ensures
        r == (args.remove_vault || args.yes || answer == Some(true)),
{
    args.remove_vault || args.yes || match answer {
        Some(a) => a,
        None => false,
    }
}

/// Whether the watchdog user is to be removed: a flag says so, else the answer,
/// where there was one.
pub fn user_goes(args: &UninstallArgs, answer: Option<bool>) -> (r: bool)
    ensures
        r == (args.remove_users || args.yes || answer == Some(true)),
{
    args.remove_users || args.yes || match answer {
        Some(a) => a,
        None => false,
    }
}

/// The agent user that the setup creates in full mode.
pub const AGENT_USER: &'static str = "ocagent";

/// Whether the agent user is to be removed: only the flag for users says so.
pub fn agent_goes(args: &UninstallArgs) -> (r: bool)
    ensures
        r == args.remove_users,
{
    args.remove_users
}

/// The command that stops and disables a unit.
pub fn disable_command(unit: &str) -> (r: CommandLine)
    ensures
        r@ == line("systemctl"@, seq!["disable"@, "--now"@, unit@]),
{
    let args = vec!["disable", "--now", unit];
    assert(strs(args@) =~= seq!["disable"@, "--now"@, unit@]);
    command("systemctl", args)
}

/// The event can come of the action.
pub open spec fn answers(a: Action, e: Event) -> bool {
    match a {
        Action::CheckRoot => e is Root,
        Action::AskConfirmation => e is Confirmed,
        Action::StopUnits => e is Stopped,
        Action::RemoveUnits => e is UnitsRemoved,
        Action::RemoveConfigs => e is ConfigsRemoved,
        Action::UnlockIdentity => e is IdentityUnlocked,
        Action::RemoveAcls => e is AclsRemoved,
        Action::DecideVault => e is VaultDecided,
        Action::RemoveVault | Action::KeepVault => e is VaultDone,
        Action::DecideUser => e is UserDecided,
        Action::RemoveUser | Action::KeepUser => e is UserDone,
        Action::DecideAgent => e is AgentDecided,
        Action::RemoveAgent | Action::KeepAgent => e is AgentDone,
        Action::Finish | Action::Abort | Action::Fail => false,
    }
}

/// The action at `i` was answered by the event at `i`.
pub open spec fn answered(run: Seq<(Action, Event)>, i: int) -> bool {
    answers(run[i].0, run[i].1)
}

/// The action at `i` follows from the event before.
pub open spec fn follows(run: Seq<(Action, Event)>, i: int) -> bool {
    run[i].0 == step(run[i - 1].1)
}

/// A run of the removal: each action with what came of it, each following from
/// the event before.
pub open spec fn is_run(run: Seq<(Action, Event)>) -> bool {
    &&& run.len() > 0 ==> run[0].0 == Action::CheckRoot
    &&& forall|i: int| 0 <= i < run.len() ==> #[trigger] answered(run, i)
    &&& forall|i: int| 0 < i < run.len() ==> #[trigger] follows(run, i)
}

/// Nothing is stopped or removed before we are root and the user agreed; the
/// vault and the users are removed only right after it was decided so.
pub proof fn law_nothing_is_done_unconfirmed(run: Seq<(Action, Event)>, n: int)
    requires
        is_run(run),
        2 <= n < run.len(),
    ensures
        run[0].1 == Event::Root(true),
        run[1].1 == Event::Confirmed(true),
        run[n].0 == Action::RemoveVault ==> run[n - 1].1 == Event::VaultDecided(Some(true)),
        run[n].0 == Action::RemoveUser ==> run[n - 1].1 == Event::UserDecided(Some(true)),
        run[n].0 == Action::RemoveAgent ==> run[n - 1].1 == Event::AgentDecided(Some(true)),
{
    assert(answered(run, 0) && answered(run, 1) && answered(run, 2));
    assert(follows(run, 1) && follows(run, 2) && follows(run, n));
}

/// A removal that finishes has decided on both users, first the watchdog, then
/// the agent, and has removed each one that was to go.
pub proof fn law_both_users_are_decided(run: Seq<(Action, Event)>) -> (at: (int, int))
    requires
        is_run(run),
        run.len() > 0,
        step(run.last().1) == Action::Finish,
    ensures
        0 <= at.0 < at.1 < run.len(),
        run[at.0].1 is UserDecided,
        run[at.0].1 == Event::UserDecided(Some(true)) ==> run[at.0 + 1] == (
            Action::RemoveUser,
            Event::UserDone,
        ),
        run[at.1].1 is AgentDecided,
        run[at.1].1 == Event::AgentDecided(Some(true)) ==> at.1 + 1 < run.len() && run[at.1 + 1]
            == (Action::RemoveAgent, Event::AgentDone),
{
    let last = run.len() - 1;
    assert(answered(run, last));
    let j = if run[last].1 is AgentDone {
        assert(last > 0);
        assert(follows(run, last) && answered(run, last - 1));
        last - 1
    } else {
        last
    };
    assert(run[j].1 is AgentDecided);
    assert(answered(run, j) && j > 0);
    assert(follows(run, j) && answered(run, j - 1));
    let i = if run[j - 1].1 is UserDone {
        assert(j - 1 > 0);
        assert(follows(run, j - 1) && answered(run, j - 2));
        j - 2
    } else {
        j - 1
    };
    (i, j)
}

/// The agent user goes by the flag for users alone: skipping the prompt does not
/// remove the account.
pub proof fn law_agent_goes_by_the_flag_alone(args: UninstallArgs)
    ensures
        step(Event::AgentDecided(Some(args.remove_users))) == if args.remove_users {
            Action::RemoveAgent
        } else {
            Action::KeepAgent
        },
{
}

/// Data and users are removed only by a flag or by consent: without a flag and
/// without a yes, the vault and the watchdog user stay.
pub proof fn law_nothing_is_removed_unasked(args: UninstallArgs, answer: Option<bool>)
    requires
        !args.yes,
        answer != Some(true),
    ensures
        !args.remove_vault ==> step(
            Event::VaultDecided(Some(args.remove_vault || args.yes || answer == Some(true))),
        ) == Action::KeepVault,
        !args.remove_users ==> step(
            Event::UserDecided(Some(args.remove_users || args.yes || answer == Some(true))),
        ) == Action::KeepUser,
        step(Event::Confirmed(args.yes || answer == Some(true))) == Action::Abort,
{
}

/// The place of an action in the removal. Actions between which the removal
/// chooses share one.
pub open spec fn stage(a: Action) -> int {
    match a {
        Action::CheckRoot => 0,
        Action::AskConfirmation => 1,
        Action::StopUnits => 2,
        Action::RemoveUnits => 3,
        Action::RemoveConfigs => 4,
        Action::UnlockIdentity => 5,
        Action::RemoveAcls => 6,
        Action::DecideVault => 7,
        Action::RemoveVault | Action::KeepVault => 8,
        Action::DecideUser => 9,
        Action::RemoveUser | Action::KeepUser => 10,
        Action::DecideAgent => 11,
        Action::RemoveAgent | Action::KeepAgent => 12,
        Action::Finish => 13,
        Action::Abort | Action::Fail => -1,
    }
}

/// There is nothing to remove.
pub open spec fn nothing_there(e: Event) -> bool {
    e == Event::VaultDecided(None) || e == Event::UserDecided(None) || e == Event::AgentDecided(
        None,
    )
}

/// Each step leads to the next one; only a removal is passed over, and only
/// where there is nothing to remove. The removal fails without root, is aborted
/// without consent, and ends early for no other reason.
pub proof fn law_steps_in_order(a: Action, e: Event)
    requires
        answers(a, e),
    ensures
        e == Event::Root(false) <==> step(e) == Action::Fail,
        e == Event::Confirmed(false) <==> step(e) == Action::Abort,
        nothing_there(e) ==> stage(step(e)) == stage(a) + 2,
        !nothing_there(e) && step(e) != Action::Fail && step(e) != Action::Abort ==> stage(step(e))
            == stage(a) + 1,
{
}

/// What was decided is done: a vault or a user that is to go is removed, and one
/// that is to stay is kept.
pub proof fn law_decisions_are_carried_out(goes: bool)
    ensures
        step(Event::VaultDecided(Some(goes))) == Action::RemoveVault <==> goes,
        step(Event::UserDecided(Some(goes))) == Action::RemoveUser <==> goes,
        step(Event::AgentDecided(Some(goes))) == Action::RemoveAgent <==> goes,
{
}

} // verus!
