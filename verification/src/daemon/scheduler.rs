//! Internal task scheduler replacing systemd timers.
//!
//! Tracks periodic tasks (snapshot, healthcheck, LKG promotion, cloud sync)
//! and reports which ones are due on each tick.

use crate::util::text::{same, views};
use crate::util::time_fmt::{monotonic_now, Timestamp};
use vstd::prelude::*;

verus! {

/// A single scheduled periodic task.
pub struct ScheduledTask {
    pub name: String,
    pub interval_secs: u64,
    pub last_run: Option<Timestamp>,
    pub enabled: bool,
}

/// The view of a task.
pub struct TaskView {
    pub name: Seq<char>,
    pub interval_secs: u64,
    pub last_run: Option<Timestamp>,
    pub enabled: bool,
}

impl View for ScheduledTask {
    type V = TaskView;

    open spec fn view(&self) -> TaskView {
        TaskView {
            name: self.name@,
            interval_secs: self.interval_secs,
            last_run: self.last_run,
            enabled: self.enabled,
        }
    }
}

/// Scheduler that tracks multiple periodic tasks.
pub struct Scheduler {
    pub tasks: Vec<ScheduledTask>,
}

impl View for Scheduler {
    type V = Seq<TaskView>;

    open spec fn view(&self) -> Seq<TaskView> {
        Seq::new(self.tasks@.len(), |i: int| self.tasks@[i]@)
    }
}

impl TaskView {
    /// The task is enabled, and has never run or not within its interval.
    pub open spec fn due(self, now: Timestamp) -> bool {
        self.enabled && match self.last_run {
            None => true,
            Some(last) => now.waited(last) >= self.interval_secs,
        }
    }

    /// The task after a tick: a due task has run.
    pub open spec fn ticked(self, now: Timestamp) -> TaskView {
        if self.due(now) {
            TaskView { last_run: Some(now), ..self }
        } else {
            self
        }
    }
}

/// The names of the due tasks among the first `n`, in order.
pub open spec fn due_names(tasks: Seq<TaskView>, now: Timestamp, n: int) -> Seq<Seq<char>>
    decreases n,
{
    if n <= 0 {
        Seq::empty()
    } else if tasks[n - 1].due(now) {
        due_names(tasks, now, n - 1).push(tasks[n - 1].name)
    } else {
        due_names(tasks, now, n - 1)
    }
}

/// The tasks after a tick.
pub open spec fn after_tick(tasks: Seq<TaskView>, now: Timestamp) -> Seq<TaskView> {
    Seq::new(tasks.len(), |i: int| tasks[i].ticked(now))
}

/// A task that has never run.
pub open spec fn fresh(name: Seq<char>, interval_secs: u64, enabled: bool) -> TaskView {
    TaskView { name, interval_secs, last_run: None, enabled }
}

/// The default set of tasks.
pub open spec fn default_tasks(cloud_enabled: bool) -> Seq<TaskView> {
    seq![
        fresh("snapshot"@, 1800, true),
        fresh("healthcheck"@, 120, true),
        fresh("lkg_promote"@, 7200, true),
        fresh("cloud_sync"@, 7200, cloud_enabled),
    ]
}

/// The tasks with the first one called `name`, searched from position `i`,
/// enabled or disabled.
pub open spec fn with_enabled(tasks: Seq<TaskView>, name: Seq<char>, enabled: bool, i: int) -> Seq<TaskView>
    decreases tasks.len() - i,
{
    if i < 0 || i >= tasks.len() {
        tasks
    } else if tasks[i].name == name {
        tasks.update(i, TaskView { enabled, ..tasks[i] })
    } else {
        with_enabled(tasks, name, enabled, i + 1)
    }
}

impl Scheduler {
    /// Create a scheduler with the default set of tasks.
    ///
    /// - `snapshot`: every 1800s (30 min)
    /// - `healthcheck`: every 120s (2 min)
    /// - `lkg_promote`: every 7200s (2 hr)
    /// - `cloud_sync`: every 7200s (2 hr), disabled by default
    pub fn new(cloud_enabled: bool) -> (r: Self)
        ensures
            r@ == default_tasks(cloud_enabled),
    {
        let r = Scheduler {
            tasks: vec![
                ScheduledTask {
                    name: "snapshot".to_owned(),
                    interval_secs: 1800,
                    last_run: None,
                    enabled: true,
                },
                ScheduledTask {
                    name: "healthcheck".to_owned(),
                    interval_secs: 120,
                    last_run: None,
                    enabled: true,
                },
                ScheduledTask {
                    name: "lkg_promote".to_owned(),
                    interval_secs: 7200,
                    last_run: None,
                    enabled: true,
                },
                ScheduledTask {
                    name: "cloud_sync".to_owned(),
                    interval_secs: 7200,
                    last_run: None,
                    enabled: cloud_enabled,
                },
            ],
        };
        assert(r@ =~= default_tasks(cloud_enabled));
        r
    }

    /// Check all tasks at the time `now` and return the names of those that are due.
    ///
    /// A task is due if it is enabled and either has never run or its
    /// interval has elapsed since its last run.  Due tasks have their
    /// `last_run` updated to `now`.
    pub fn tick_at(&mut self, now: Timestamp) -> (due: Vec<String>)
        ensures
            views(due@) == due_names(old(self)@, now, old(self)@.len() as int),
            final(self)@ == after_tick(old(self)@, now),
    {
        let ghost before = self@;
        let mut due: Vec<String> = Vec::new();
        let mut i: usize = 0;
        while i < self.tasks.len()
            invariant
                before == old(self)@,
                self.tasks@.len() == before.len(),
                i <= before.len(),
                views(due@) =~= due_names(before, now, i as int),
                forall|k: int| 0 <= k < i ==> self.tasks@[k]@ == before[k].ticked(now),
                forall|k: int| i <= k < before.len() ==> self.tasks@[k]@ == before[k],
            decreases before.len() - i,
        {
            assert(self.tasks@[i as int]@ == before[i as int]);
            let is_due = self.tasks[i].enabled && match self.tasks[i].last_run {
                None => true,
                Some(last) => now.secs_waited(&last) >= self.tasks[i].interval_secs as u128,
            };
            if is_due {
                self.tasks[i].last_run = Some(now);
                due.push(self.tasks[i].name.clone());
            }
            i += 1;
        }
        assert(self@ =~= after_tick(before, now));
        due
    }

    /// Check all tasks now and return the names of those that are due.
    pub fn tick(&mut self) -> (due: Vec<String>)
        ensures
            exists|now: Timestamp|
                views(due@) == due_names(old(self)@, now, old(self)@.len() as int) && final(self)@
                    == #[trigger] after_tick(old(self)@, now),
    {
        let now = monotonic_now();
        self.tick_at(now)
    }

    /// Enable or disable a task by name.
    pub fn set_enabled(&mut self, name: &str, enabled: bool)
        ensures
            final(self)@ == with_enabled(old(self)@, name@, enabled, 0),
    {
        let ghost before = self@;
        let mut i: usize = 0;
        while i < self.tasks.len()
            invariant
                *self == *old(self),
                before == self@,
                i <= self.tasks@.len(),
                with_enabled(before, name@, enabled, 0) == with_enabled(
                    before,
                    name@,
                    enabled,
                    i as int,
                ),
            decreases self.tasks@.len() - i,
        {
            if same(self.tasks[i].name.as_str(), name) {
                self.tasks[i].enabled = enabled;
                assert(self@ =~= before.update(
                    i as int,
                    TaskView { enabled, ..before[i as int] },
                ));
                return ;
            }
            i += 1;
        }
    }
}

/// A tick fires exactly the tasks that are due: a name is among those it reports
/// exactly where a due task bears it.
pub proof fn law_due_tasks_fire(tasks: Seq<TaskView>, now: Timestamp, n: int, name: Seq<char>)
    requires
        0 <= n <= tasks.len(),
    ensures
        due_names(tasks, now, n).contains(name) <==> exists|i: int|
            0 <= i < n && (#[trigger] tasks[i]).due(now) && tasks[i].name == name,
    decreases n,
{
    if n > 0 {
        law_due_tasks_fire(tasks, now, n - 1, name);
        let shorter = due_names(tasks, now, n - 1);
        if tasks[n - 1].due(now) {
            let all = due_names(tasks, now, n);
            assert(all == shorter.push(tasks[n - 1].name));
            if all.contains(name) {
                let k = all.index_of(name);
                if k < shorter.len() {
                    assert(shorter[k] == name);
                    assert(shorter.contains(name));
                }
            }
            if shorter.contains(name) {
                let k = shorter.index_of(name);
                assert(all[k] == name);
            }
            assert(all[shorter.len() as int] == tasks[n - 1].name);
        }
    }
}

/// The first tick of a new scheduler fires every enabled task and no other.
pub proof fn law_first_tick_fires_enabled(cloud_enabled: bool, now: Timestamp)
    ensures
        due_names(default_tasks(cloud_enabled), now, 4) == if cloud_enabled {
            seq!["snapshot"@, "healthcheck"@, "lkg_promote"@, "cloud_sync"@]
        } else {
            seq!["snapshot"@, "healthcheck"@, "lkg_promote"@]
        },
{
    reveal_with_fuel(due_names, 5);
    let want = if cloud_enabled {
        seq!["snapshot"@, "healthcheck"@, "lkg_promote"@, "cloud_sync"@]
    } else {
        seq!["snapshot"@, "healthcheck"@, "lkg_promote"@]
    };
    assert(due_names(default_tasks(cloud_enabled), now, 4) =~= want);
}

/// A task that fired does not fire again before its interval has passed.
pub proof fn law_interval_is_kept(tasks: Seq<TaskView>, first: Timestamp, second: Timestamp, i: int)
    requires
        0 <= i < tasks.len(),
        tasks[i].due(first),
        second.waited(first) < tasks[i].interval_secs,
    ensures
        !after_tick(tasks, first)[i].due(second),
{
}

/// Two ticks at one time: the second fires nothing, as long as no interval is zero.
pub proof fn law_second_tick_fires_nothing(tasks: Seq<TaskView>, now: Timestamp, n: int)
    requires
        0 <= n <= tasks.len(),
        forall|i: int| 0 <= i < tasks.len() ==> (#[trigger] tasks[i]).interval_secs > 0,
    ensures
        due_names(after_tick(tasks, now), now, n) == Seq::<Seq<char>>::empty(),
    decreases n,
{
    if n > 0 {
        law_second_tick_fires_nothing(tasks, now, n - 1);
        let t = tasks[n - 1];
        assert(t.interval_secs > 0);
        assert(!after_tick(tasks, now)[n - 1].due(now));
    }
}

/// A disabled task never fires, and a tick leaves it as it was.
pub proof fn law_disabled_never_fires(tasks: Seq<TaskView>, now: Timestamp, i: int)
    requires
        0 <= i < tasks.len(),
        !tasks[i].enabled,
    ensures
        !tasks[i].due(now),
        after_tick(tasks, now)[i] == tasks[i],
{
}

/// A task is due where it is enabled and has never run, or its interval has
/// passed since it last did, and only there.
pub proof fn law_due_after_the_interval(t: TaskView, now: Timestamp)
    ensures
        ({
            let last = t.last_run->0;
            let nanos = (now.secs - last.secs) * 1_000_000_000 + (now.nanos - last.nanos);
            &&& !t.enabled ==> !t.due(now)
            &&& t.enabled && t.last_run is None ==> t.due(now)
            &&& t.enabled && t.last_run is Some && t.interval_secs > 0 ==> (t.due(now) <==> nanos
                >= t.interval_secs * 1_000_000_000)
            &&& t.enabled && t.interval_secs == 0 ==> t.due(now)
        }),
{
    let last = t.last_run->0;
    let nanos = (now.secs - last.secs) * 1_000_000_000 + (now.nanos - last.nanos);
    assert(nanos == now.since(last));
}

/// A tick notes the time in each task that it fires, and changes nothing else.
pub proof fn law_tick_notes_the_time(tasks: Seq<TaskView>, now: Timestamp, i: int)
    requires
        0 <= i < tasks.len(),
    ensures
        after_tick(tasks, now).len() == tasks.len(),
        ({
            let (before, after) = (tasks[i], after_tick(tasks, now)[i]);
            &&& after.name == before.name && after.interval_secs == before.interval_secs
                && after.enabled == before.enabled
            &&& before.due(now) ==> after.last_run == Some(now)
            &&& !before.due(now) ==> after.last_run == before.last_run
        }),
{
}

/// A tick reports the tasks that it fires in their order, each once: what it
/// reports of two lists in a row is what it reports of each, and of a single
/// task its name, where it is due.
pub proof fn law_tasks_are_reported_in_order(
    first: Seq<TaskView>,
    second: Seq<TaskView>,
    t: TaskView,
    now: Timestamp,
    n: int,
)
    requires
        0 <= n <= second.len(),
    ensures
        due_names(first + second, now, first.len() + n) == due_names(
            first,
            now,
            first.len() as int,
        ) + due_names(second, now, n),
        due_names(seq![t], now, 1) == if t.due(now) {
            seq![t.name]
        } else {
            Seq::empty()
        },
    decreases n,
{
    reveal_with_fuel(due_names, 2);
    assert(due_names(seq![t], now, 1) =~= if t.due(now) {
        seq![t.name]
    } else {
        Seq::empty()
    });
    let all = first + second;
    if n > 0 {
        law_tasks_are_reported_in_order(first, second, t, now, n - 1);
        assert(all[first.len() + n - 1] == second[n - 1]);
        assert(due_names(all, now, first.len() + n) =~= due_names(first, now, first.len() as int)
            + due_names(second, now, n));
    } else {
        lemma_due_in_longer(first, second, now, first.len() as int);
        assert(due_names(all, now, first.len() as int) =~= due_names(
            first,
            now,
            first.len() as int,
        ) + due_names(second, now, 0));
    }
}

/// What follows a list does not change what is due at its beginning.
proof fn lemma_due_in_longer(first: Seq<TaskView>, second: Seq<TaskView>, now: Timestamp, n: int)
    requires
        0 <= n <= first.len(),
    ensures
        due_names(first + second, now, n) == due_names(first, now, n),
    decreases n,
{
    if n > 0 {
        lemma_due_in_longer(first, second, now, n - 1);
        assert((first + second)[n - 1] == first[n - 1]);
    }
}

/// A new scheduler takes a snapshot every half hour, checks the health every two
/// minutes, and promotes and syncs every two hours, the last where it is enabled.
/// Nothing has run yet.
pub proof fn law_default_intervals(cloud_enabled: bool, i: int)
    requires
        0 <= i < default_tasks(cloud_enabled).len(),
    ensures
        default_tasks(cloud_enabled).len() == 4,
        ({
            let t = default_tasks(cloud_enabled)[i];
            &&& t.last_run is None
            &&& t.name == "snapshot"@ ==> t.interval_secs == 30 * 60
            &&& t.name == "healthcheck"@ ==> t.interval_secs == 2 * 60
            &&& t.name == "lkg_promote"@ || t.name == "cloud_sync"@ ==> t.interval_secs == 2 * 60
                * 60
            &&& t.enabled <==> t.name != "cloud_sync"@ || cloud_enabled
        }),
{
    reveal_strlit("snapshot");
    reveal_strlit("healthcheck");
    reveal_strlit("lkg_promote");
    reveal_strlit("cloud_sync");
    assert("snapshot"@[0] == 's' && "healthcheck"@[0] == 'h' && "lkg_promote"@[0] == 'l'
        && "cloud_sync"@[0] == 'c');
}

/// Enabling or disabling by name changes the flag of the first task so named,
/// and nothing else.
pub proof fn law_enabling_changes_one_flag(
    tasks: Seq<TaskView>,
    name: Seq<char>,
    enabled: bool,
    from: int,
    k: int,
)
    requires
        0 <= from <= k < tasks.len(),
        tasks[k].name == name,
        forall|j: int| from <= j < k ==> (#[trigger] tasks[j]).name != name,
    ensures
        with_enabled(tasks, name, enabled, from).len() == tasks.len(),
        with_enabled(tasks, name, enabled, from)[k].enabled == enabled,
        with_enabled(tasks, name, enabled, from)[k].name == name,
        with_enabled(tasks, name, enabled, from)[k].interval_secs == tasks[k].interval_secs,
        with_enabled(tasks, name, enabled, from)[k].last_run == tasks[k].last_run,
        forall|j: int|
            0 <= j < tasks.len() && j != k ==> #[trigger] with_enabled(
                tasks,
                name,
                enabled,
                from,
            )[j] == tasks[j],
    decreases k - from,
{
    if from < k {
        assert(tasks[from].name != name);
        law_enabling_changes_one_flag(tasks, name, enabled, from + 1, k);
    }
}

} // verus!
