//! First-time installation.

use crate::cli::SetupArgs;
use vstd::prelude::*;

verus! {

/// What came of a step of the installation.
#[derive(Debug, Clone, Copy, PartialEq, Eq, Structural)]
pub enum Event {
    /// Whether we run as root.
    Root(bool),
    /// Whether the human user was detected.
    Human(bool),
    /// Whether OpenClaw is installed there.
    Openclaw(bool),
    /// Whether the lightweight mode was chosen.
    Lightweight(bool),
    /// Whether the agent user exists now.
    AgentUser(bool),
    /// Whether the watchdog user exists now.
    WatchdogUser(bool),
    /// The exit code of the deployment.
    Deployed(i32),
    /// The ACLs were set, as far as they could be.
    Acls,
    /// The identity files were locked, as far as they could be.
    Identity,
    /// The services were started, as far as they could be.
    Services,
}

/// What to do next.
#[derive(Debug, Clone, Copy, PartialEq, Eq, Structural)]
pub enum Action {
    CheckRoot,
    DetectHuman,
    CheckOpenclaw,
    ChooseMode,
    EnsureAgent,
    EnsureWatchdog,
    Deploy,
    SetAcls,
    LockIdentity,
    StartServices,
    Finish,
    /// Give up with this exit code.
    Fail(i32),
}

/// What follows from an event.
pub open spec fn step(e: Event) -> Action {
    match e {
        Event::Root(true) => Action::DetectHuman,
        Event::Human(true) => Action::CheckOpenclaw,
        Event::Openclaw(true) => Action::ChooseMode,
        // Full mode has a user of its own for OpenClaw.
        Event::Lightweight(false) => Action::EnsureAgent,
        Event::Lightweight(true) => Action::EnsureWatchdog,
        Event::AgentUser(true) => Action::EnsureWatchdog,
        Event::WatchdogUser(true) => Action::Deploy,
        Event::Deployed(code) => if code == 0 {
            Action::SetAcls
        } else {
            Action::Fail(code)
        },
        Event::Acls => Action::LockIdentity,
        Event::Identity => Action::StartServices,
        Event::Services => Action::Finish,
        Event::Root(false)
        | Event::Human(false)
        | Event::Openclaw(false)
        | Event::AgentUser(false)
        | Event::WatchdogUser(false) => Action::Fail(1),
    }
}

/// What to do after an event of the installation, which begins with the check
/// for root.
pub fn install(e: Event) -> (r: Action)
    ensures
        r == step(e),
{
    match e {
        Event::Root(true) => Action::DetectHuman,
        Event::Human(true) => Action::CheckOpenclaw,
        Event::Openclaw(true) => Action::ChooseMode,
        Event::Lightweight(false) => Action::EnsureAgent,
        Event::Lightweight(true) => Action::EnsureWatchdog,
        Event::AgentUser(true) => Action::EnsureWatchdog,
        Event::WatchdogUser(true) => Action::Deploy,
        Event::Deployed(code) => if code == 0 {
            Action::SetAcls
        } else {
            Action::Fail(code)
        },
        Event::Acls => Action::LockIdentity,
        Event::Identity => Action::StartServices,
        Event::Services => Action::Finish,
        Event::Root(false)
        | Event::Human(false)
        | Event::Openclaw(false)
        | Event::AgentUser(false)
        | Event::WatchdogUser(false) => Action::Fail(1),
    }
}

/// The event can come of the action.
pub open spec fn answers(a: Action, e: Event) -> bool {
    match a {
        Action::CheckRoot => e is Root,
        Action::DetectHuman => e is Human,
        Action::CheckOpenclaw => e is Openclaw,
        Action::ChooseMode => e is Lightweight,
        Action::EnsureAgent => e is AgentUser,
        Action::EnsureWatchdog => e is WatchdogUser,
        Action::Deploy => e is Deployed,
        Action::SetAcls => e is Acls,
        Action::LockIdentity => e is Identity,
        Action::StartServices => e is Services,
        Action::Finish | Action::Fail(_) => false,
    }
}

/// The action at `i` was answered by the event at `i`.
pub open spec fn answered(run: Seq<(Action, Event)>, i: int) -> bool {
    answers(run[i].0, run[i].1)
}

/// The action at `i` follows from the event before.
pub open spec fn follows(run: Seq<(Action, Event)>, i: int) -> bool {
    run[i].0 == step(run[i - 1].1)
}

/// A run of the installation: each action with what came of it, each following
/// from the event before.
pub open spec fn is_run(run: Seq<(Action, Event)>) -> bool {
    &&& run.len() > 0 ==> run[0].0 == Action::CheckRoot
    &&& forall|i: int| 0 <= i < run.len() ==> #[trigger] answered(run, i)
    &&& forall|i: int| 0 < i < run.len() ==> #[trigger] follows(run, i)
}

/// The place of the first steps in every run.
proof fn lemma_first_steps(run: Seq<(Action, Event)>, n: int)
    requires
        is_run(run),
        0 <= n < run.len(),
    ensures
        n == 0 <==> run[n].0 == Action::CheckRoot,
        n == 1 <==> run[n].0 == Action::DetectHuman,
        n == 2 <==> run[n].0 == Action::CheckOpenclaw,
        n == 3 <==> run[n].0 == Action::ChooseMode,
    decreases n,
{
    assert(answered(run, n));
    if n > 0 {
        lemma_first_steps(run, n - 1);
        assert(answered(run, n - 1));
        assert(follows(run, n));
    }
}

/// Nothing is created or changed before we are root, a human user was detected
/// and OpenClaw found, and the mode chosen.
pub proof fn law_nothing_is_done_unprepared(run: Seq<(Action, Event)>, n: int)
    requires
        is_run(run),
        4 <= n < run.len(),
    ensures
        run[0].1 == Event::Root(true),
        run[1].1 == Event::Human(true),
        run[2].1 == Event::Openclaw(true),
        run[3].1 is Lightweight,
{
    lemma_first_steps(run, 3);
    assert(follows(run, 1) && follows(run, 2) && follows(run, 3));
    assert(answered(run, 0) && answered(run, 1) && answered(run, 2) && answered(run, 3));
    lemma_first_steps(run, 2);
    lemma_first_steps(run, 1);
}

/// Lightweight mode creates no user for the agent.
pub proof fn law_lightweight_creates_no_agent(run: Seq<(Action, Event)>, n: int)
    requires
        is_run(run),
        0 <= n < run.len(),
        run[n].0 == Action::EnsureAgent,
    ensures
        n == 4,
        run[3].1 == Event::Lightweight(false),
{
    if n > 0 {
        assert(follows(run, n));
        assert(answered(run, n - 1));
        lemma_first_steps(run, n - 1);
    }
}

/// The place of an action in the installation.
pub open spec fn stage(a: Action) -> int {
    match a {
        Action::CheckRoot => 0,
        Action::DetectHuman => 1,
        Action::CheckOpenclaw => 2,
        Action::ChooseMode => 3,
        Action::EnsureAgent => 4,
        Action::EnsureWatchdog => 5,
        Action::Deploy => 6,
        Action::SetAcls => 7,
        Action::LockIdentity => 8,
        Action::StartServices => 9,
        Action::Finish => 10,
        Action::Fail(_) => -1,
    }
}

/// The step did what it should.
pub open spec fn goes_well(e: Event) -> bool {
    match e {
        Event::Root(ok) => ok,
        Event::Human(ok) => ok,
        Event::Openclaw(ok) => ok,
        Event::Lightweight(_) => true,
        Event::AgentUser(ok) => ok,
        Event::WatchdogUser(ok) => ok,
        Event::Deployed(code) => code == 0,
        Event::Acls | Event::Identity | Event::Services => true,
    }
}

/// A step that goes well leads to the next one; only the agent user is passed
/// over, and only in lightweight mode. A step that does not go well ends the
/// installation: a deployment with its own exit code, any other with 1.
pub proof fn law_steps_in_order(a: Action, e: Event)
    requires
        answers(a, e),
    ensures
        goes_well(e) && e != Event::Lightweight(true) ==> stage(step(e)) == stage(a) + 1,
        e == Event::Lightweight(true) ==> stage(step(e)) == stage(a) + 2,
        step(e) is Fail <==> !goes_well(e),
        step(e) matches Action::Fail(code) ==> code != 0 && (e matches Event::Deployed(c) ==> code
            == c) && (!(e is Deployed) ==> code == 1),
{
}

/// The mode that the flags choose: lightweight, full, or the user's choice
/// (`None`). Without a terminal the default is the full mode.
pub fn mode_of(args: &SetupArgs) -> (r: Option<bool>)
    ensures
        r == if args.lightweight {
            Some(true)
        } else if args.yes {
            Some(false)
        } else {
            None
        },
{
    if args.lightweight {
        Some(true)
    } else if args.yes {
        Some(false)
    } else {
        None
    }
}

/// The mode that the user's selection means: the second item is the lightweight
/// mode; no selection means the full mode.
pub fn mode_selected(selection: Option<usize>) -> (r: bool)
    ensures
        r == (selection == Some(1usize)),
{
    match selection {
        Some(1) => true,
        _ => false,
    }
}

/// The agent's user, home and OpenClaw directory in the mode chosen.
pub struct AgentPlace {
    pub user: String,
    pub home: String,
    pub openclaw_dir: String,
}

/// The agent's user, home and OpenClaw directory: those of the human user in
/// lightweight mode, those of ocagent in full mode.
pub fn agent_place(human_user: &str, lightweight: bool) -> (r: AgentPlace)
    ensures
        lightweight ==> r.user@ == human_user@ && r.home@ == "/home/"@ + human_user@
            && r.openclaw_dir@ == "/home/"@ + human_user@ + "/.openclaw"@,
        !lightweight ==> r.user@ == "ocagent"@ && r.home@ == "/home/ocagent"@ && r.openclaw_dir@
            == "/home/ocagent/.openclaw"@,
{
    if lightweight {
        let mut home = "/home/".to_owned();
        home.append(human_user);
        let mut dir = home.clone();
        dir.append("/.openclaw");
        AgentPlace { user: human_user.to_owned(), home, openclaw_dir: dir }
    } else {
        AgentPlace {
            user: "ocagent".to_owned(),
            home: "/home/ocagent".to_owned(),
            openclaw_dir: "/home/ocagent/.openclaw".to_owned(),
        }
    }
}

/// The closing words of the installation.
pub fn closing_text(human_user: &str, lightweight: bool) -> (r: String)
    ensures
        r@ == (if lightweight {
            "  Two-user isolation active:\n    "@ + human_user@
                + "     -- Admin + OpenClaw\n    outerclaw  -- OuterClaw (limited sudo)\n"@
        } else {
            "  Three-user isolation active:\n    "@ + human_user@
                + "     -- Admin (sudo)\n    ocagent    -- OpenClaw (no sudo)\n    outerclaw  -- OuterClaw (limited sudo)\n"@
        })
            + "\n  Services:\n    Gateway:     sudo systemctl status openclaw-gateway\n    Watchdog:    sudo systemctl status oc-outerclaw\n    Snapshots:   sudo systemctl list-timers oc-*\n"@,
{
    let mut r = if lightweight {
        let mut t = "  Two-user isolation active:\n    ".to_owned();
        t.append(human_user);
        t.append("     -- Admin + OpenClaw\n    outerclaw  -- OuterClaw (limited sudo)\n");
        t
    } else {
        let mut t = "  Three-user isolation active:\n    ".to_owned();
        t.append(human_user);
        t.append(
            "     -- Admin (sudo)\n    ocagent    -- OpenClaw (no sudo)\n    outerclaw  -- OuterClaw (limited sudo)\n",
        );
        t
    };
    r.append(
        "\n  Services:\n    Gateway:     sudo systemctl status openclaw-gateway\n    Watchdog:    sudo systemctl status oc-outerclaw\n    Snapshots:   sudo systemctl list-timers oc-*\n",
    );
    r
}

} // verus!
