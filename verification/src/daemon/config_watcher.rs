//! Watching the config and identity files: which changes raise an alert.

use crate::util::path::{file_name, is_same_path, name_of, same_path};
use crate::util::text::{same, views};
use crate::util::time_fmt::Timestamp;
use vstd::prelude::*;

verus! {

/// Cooldown between alerts for the same file (seconds).
pub const ALERT_COOLDOWN_SECS: u64 = 60;

/// What happened to a file.
#[derive(Debug, Clone, Copy, PartialEq, Eq, Structural)]
pub enum EventKind {
    Any,
    Access,
    Create,
    Modify,
    Remove,
    Other,
}

/// One notification: what happened, and to which paths.
pub struct WatchEvent {
    pub kind: EventKind,
    pub paths: Vec<String>,
}

/// Watches critical config and identity files for modifications.
pub struct ConfigFileWatcher {
    pub watched_paths: Vec<String>,
    /// When the last alert for each watched path was raised.
    pub alert_cooldown: Vec<Option<Timestamp>>,
}

/// An alert: its level and its message.
pub type Alert = (&'static str, String);

/// The views of alerts.
pub open spec fn alerts_view(v: Seq<Alert>) -> Seq<(Seq<char>, Seq<char>)> {
    Seq::new(v.len(), |i: int| (v[i].0@, v[i].1@))
}

/// SOUL.md, AGENTS.md or USER.md.
pub open spec fn identity_name(filename: Seq<char>) -> bool {
    filename == "SOUL.md"@ || filename == "AGENTS.md"@ || filename == "USER.md"@
}

/// Whether a filename is an identity file (SOUL.md, AGENTS.md, USER.md).
pub fn is_identity_file(filename: &str) -> (r: bool)
    ensures
        r == identity_name(filename@),
{
    same(filename, "SOUL.md") || same(filename, "AGENTS.md") || same(filename, "USER.md")
}

/// What happened, in one word; `None` for what is not alertable.
pub open spec fn event_word(kind: EventKind) -> Option<Seq<char>> {
    match kind {
        EventKind::Modify => Some("modified"@),
        EventKind::Create => Some("created"@),
        EventKind::Remove => Some("deleted"@),
        EventKind::Access => None,
        EventKind::Other | EventKind::Any => Some("changed"@),
    }
}

/// Describe an event kind as a human-readable string, empty where it is not alertable.
pub fn describe_event_kind(kind: EventKind) -> (r: &'static str)
    ensures
        match event_word(kind) {
            Some(w) => r@ == w && r@.len() > 0,
            None => r@.len() == 0,
        },
{
    proof {
        reveal_strlit("");
        reveal_strlit("modified");
        reveal_strlit("created");
        reveal_strlit("deleted");
        reveal_strlit("changed");
    }
    match kind {
        EventKind::Modify => "modified",
        EventKind::Create => "created",
        EventKind::Remove => "deleted",
        EventKind::Access => "",  // not alertable
        EventKind::Other | EventKind::Any => "changed",
    }
}

/// The alert for a change of the file called `filename`.
pub open spec fn change_alert(filename: Seq<char>, word: Seq<char>) -> (Seq<char>, Seq<char>) {
    if identity_name(filename) {
        (
            "CRITICAL"@,
            "IDENTITY FILE TAMPERED: "@ + filename + " was "@ + word
                + ". chattr +i may have been removed!"@,
        )
    } else {
        ("WARNING"@, "Config file changed: "@ + filename + " ("@ + word + ")"@)
    }
}

/// The alert for a change of the file called `filename`.
pub fn alert_for(filename: &str, word: &str) -> (r: Alert)
    ensures
        (r.0@, r.1@) == change_alert(filename@, word@),
{
    if is_identity_file(filename) {
        let mut m = "IDENTITY FILE TAMPERED: ".to_owned();
        m.append(filename);
        m.append(" was ");
        m.append(word);
        m.append(". chattr +i may have been removed!");
        ("CRITICAL", m)
    } else {
        let mut m = "Config file changed: ".to_owned();
        m.append(filename);
        m.append(" (");
        m.append(word);
        m.append(")");
        ("WARNING", m)
    }
}

/// The file name that an alert shows.
pub open spec fn shown_name(path: Seq<char>) -> Seq<char> {
    match file_name(path) {
        Some(n) => n,
        None => "unknown"@,
    }
}

/// The first position at or after `i` where `path` stands in the list, however
/// it is written there.
pub open spec fn position(list: Seq<Seq<char>>, path: Seq<char>, i: int) -> Option<int>
    decreases list.len() - i,
{
    if i < 0 || i >= list.len() {
        None
    } else if same_path(list[i], path) {
        Some(i)
    } else {
        position(list, path, i + 1)
    }
}

/// The cooldowns, and the alerts raised, after an alertable event on one path.
pub open spec fn noticed(
    watched: Seq<Seq<char>>,
    cooldown: Seq<Option<Timestamp>>,
    word: Seq<char>,
    path: Seq<char>,
    now: Timestamp,
) -> (Seq<Option<Timestamp>>, Option<(Seq<char>, Seq<char>)>) {
    match position(watched, path, 0) {
        None => (cooldown, None),
        Some(i) => if cooldown[i] matches Some(last) && now.waited(last) < ALERT_COOLDOWN_SECS {
            (cooldown, None)
        } else {
            (cooldown.update(i, Some(now)), Some(change_alert(shown_name(path), word)))
        },
    }
}

/// The cooldowns and the alerts after the first `n` paths of an event.
pub open spec fn noticed_paths(
    watched: Seq<Seq<char>>,
    cooldown: Seq<Option<Timestamp>>,
    word: Seq<char>,
    paths: Seq<Seq<char>>,
    now: Timestamp,
    n: int,
) -> (Seq<Option<Timestamp>>, Seq<(Seq<char>, Seq<char>)>)
    decreases n,
{
    if n <= 0 {
        (cooldown, Seq::empty())
    } else {
        let (c, alerts) = noticed_paths(watched, cooldown, word, paths, now, n - 1);
        let (d, alert) = noticed(watched, c, word, paths[n - 1], now);
        (
            d,
            match alert {
                Some(a) => alerts.push(a),
                None => alerts,
            },
        )
    }
}

/// The view of an event.
pub struct EventView {
    pub kind: EventKind,
    pub paths: Seq<Seq<char>>,
}

impl View for WatchEvent {
    type V = EventView;

    open spec fn view(&self) -> EventView {
        EventView { kind: self.kind, paths: views(self.paths@) }
    }
}

/// The cooldowns and the alerts after the first `n` events.
pub open spec fn noticed_events(
    watched: Seq<Seq<char>>,
    cooldown: Seq<Option<Timestamp>>,
    events: Seq<WatchEvent>,
    now: Timestamp,
    n: int,
) -> (Seq<Option<Timestamp>>, Seq<(Seq<char>, Seq<char>)>)
    decreases n,
{
    if n <= 0 {
        (cooldown, Seq::empty())
    } else {
        let (c, alerts) = noticed_events(watched, cooldown, events, now, n - 1);
        let e = events[n - 1]@;
        match event_word(e.kind) {
            None => (c, alerts),
            Some(w) => {
                let (d, more) = noticed_paths(
                    watched,
                    c,
                    w,
                    e.paths,
                    now,
                    e.paths.len() as int,
                );
                (d, alerts + more)
            },
        }
    }
}

/// A position found lies in the list and holds the path.
proof fn lemma_position(list: Seq<Seq<char>>, path: Seq<char>, i: int)
    requires
        0 <= i,
    ensures
        position(list, path, i) matches Some(k) ==> i <= k < list.len() && same_path(
            list[k],
            path,
        ),
    decreases list.len() - i,
{
    if i < list.len() && !same_path(list[i], path) {
        lemma_position(list, path, i + 1);
    }
}

impl ConfigFileWatcher {
    /// Every watched path has a cooldown of its own.
    pub open spec fn valid(self) -> bool {
        self.alert_cooldown@.len() == self.watched_paths@.len()
    }

    /// Watch these paths; no alert has been raised yet.
    pub fn new(paths: Vec<String>) -> (r: Self)
        ensures
            r.valid(),
            r.watched_paths@ == paths@,
            forall|i: int| 0 <= i < paths@.len() ==> r.alert_cooldown@[i] is None,
    {
        let mut alert_cooldown: Vec<Option<Timestamp>> = Vec::new();
        let mut i: usize = 0;
        while i < paths.len()
            invariant
                i <= paths@.len(),
                alert_cooldown@.len() == i,
                forall|k: int| 0 <= k < i ==> alert_cooldown@[k] is None,
            decreases paths@.len() - i,
        {
            alert_cooldown.push(None);
            i += 1;
        }
        ConfigFileWatcher { watched_paths: paths, alert_cooldown }
    }

    /// The place of `path` among the watched paths.
    fn index_of(&self, path: &str) -> (r: Option<usize>)
        ensures
            match r {
                Some(i) => position(views(self.watched_paths@), path@, 0) == Some(i as int) && i
                    < self.watched_paths@.len(),
                None => position(views(self.watched_paths@), path@, 0) is None,
            },
    {
        let mut i: usize = 0;
        while i < self.watched_paths.len()
            invariant
                i <= self.watched_paths@.len(),
                position(views(self.watched_paths@), path@, 0) == position(
                    views(self.watched_paths@),
                    path@,
                    i as int,
                ),
            decreases self.watched_paths@.len() - i,
        {
            if is_same_path(self.watched_paths[i].as_str(), path) {
                return Some(i);
            }
            i += 1;
        }
        None
    }

    /// The alert for an alertable event on one path, unless the path is not
    /// watched or the last alert for it is too recent.
    fn notice(&mut self, word: &str, path: &str, now: Timestamp) -> (r: Option<Alert>)
        requires
            old(self).valid(),
        ensures
            final(self).valid(),
            final(self).watched_paths == old(self).watched_paths,
            (
                final(self).alert_cooldown@,
                match r {
                    Some(a) => Some((a.0@, a.1@)),
                    None => None,
                },
            ) == noticed(
                views(old(self).watched_paths@),
                old(self).alert_cooldown@,
                word@,
                path@,
                now,
            ),
    {
        let i: usize = match self.index_of(path) {
            Some(i) => i,
            None => return None,
        };
        // Cooldown: don't flood alerts for repeated edits
        if let Some(last) = self.alert_cooldown[i] {
            if now.secs_waited(&last) < ALERT_COOLDOWN_SECS as u128 {
                return None;
            }
        }
        self.alert_cooldown[i] = Some(now);
        match name_of(path) {
            Some(n) => Some(alert_for(n.as_str(), word)),
            None => Some(alert_for("unknown", word)),
        }
    }

    /// The alerts for pending events (with per-file cooldown), in order.
    pub fn process_events(&mut self, events: &Vec<WatchEvent>, now: Timestamp) -> (r: Vec<Alert>)
        requires
            old(self).valid(),
        ensures
            final(self).valid(),
            final(self).watched_paths == old(self).watched_paths,
            (final(self).alert_cooldown@, alerts_view(r@)) == noticed_events(
                views(old(self).watched_paths@),
                old(self).alert_cooldown@,
                events@,
                now,
                events@.len() as int,
            ),
    {
        let ghost watched = views(self.watched_paths@);
        let ghost start = self.alert_cooldown@;
        let mut alerts: Vec<Alert> = Vec::new();
        assert(alerts_view(alerts@) =~= Seq::<(Seq<char>, Seq<char>)>::empty());
        let mut i: usize = 0;
        while i < events.len()
            invariant
                self.valid(),
                self.watched_paths == old(self).watched_paths,
                watched == views(old(self).watched_paths@),
                start == old(self).alert_cooldown@,
                i <= events@.len(),
                (self.alert_cooldown@, alerts_view(alerts@)) == noticed_events(
                    watched,
                    start,
                    events@,
                    now,
                    i as int,
                ),
            decreases events@.len() - i,
        {
            // We care about modifications, attribute changes, removals, and renames
            let word = describe_event_kind(events[i].kind);
            let ghost e = events@[i as int]@;
            if !word.is_empty() {
                let ghost c = self.alert_cooldown@;
                let ghost before = alerts_view(alerts@);
                let mut k: usize = 0;
                assert(before + Seq::<(Seq<char>, Seq<char>)>::empty() =~= before);
                while k < events[i].paths.len()
                    invariant
                        i < events@.len(),
                        e == events@[i as int]@,
                        self.valid(),
                        self.watched_paths == old(self).watched_paths,
                        watched == views(old(self).watched_paths@),
                        k <= e.paths.len(),
                        e.paths.len() == events@[i as int].paths@.len(),
                        self.alert_cooldown@ == noticed_paths(
                            watched,
                            c,
                            word@,
                            e.paths,
                            now,
                            k as int,
                        ).0,
                        alerts_view(alerts@) == before + noticed_paths(
                            watched,
                            c,
                            word@,
                            e.paths,
                            now,
                            k as int,
                        ).1,
                    decreases e.paths.len() - k,
                {
                    let ghost seen = alerts_view(alerts@);
                    let ghost more = noticed_paths(watched, c, word@, e.paths, now, k as int).1;
                    assert(e.paths[k as int] == events@[i as int].paths@[k as int]@);
                    if let Some(a) = self.notice(word, events[i].paths[k].as_str(), now) {
                        let ghost shown = (a.0@, a.1@);
                        alerts.push(a);
                        assert(alerts_view(alerts@) =~= seen.push(shown));
                        assert((before + more).push(shown) =~= before + more.push(shown));
                    }
                    k += 1;
                }
            }
            i += 1;
        }
        alerts
    }
}

/// Edits in quick succession raise one alert: after an alert, the same path,
/// however it is written, raises no other before the cooldown has passed.
pub proof fn law_no_alert_flood(
    watched: Seq<Seq<char>>,
    cooldown: Seq<Option<Timestamp>>,
    first: Seq<char>,
    second: Seq<char>,
    path: Seq<char>,
    again: Seq<char>,
    now: Timestamp,
    later: Timestamp,
)
    requires
        watched.len() == cooldown.len(),
        same_path(path, again),
        noticed(watched, cooldown, first, path, now).1 is Some,
        later.waited(now) < ALERT_COOLDOWN_SECS,
    ensures
        noticed(
            watched,
            noticed(watched, cooldown, first, path, now).0,
            second,
            again,
            later,
        ).1 is None,
{
    lemma_position(watched, path, 0);
    lemma_same_position(watched, path, again, 0);
}

/// The same path stands at the same position.
proof fn lemma_same_position(list: Seq<Seq<char>>, a: Seq<char>, b: Seq<char>, i: int)
    requires
        same_path(a, b),
        0 <= i,
    ensures
        position(list, a, i) == position(list, b, i),
    decreases list.len() - i,
{
    if i < list.len() {
        lemma_same_position(list, a, b, i + 1);
    }
}

/// Only watched paths raise an alert, and each leaves the cooldowns of the
/// others alone.
pub proof fn law_only_watched_paths_alert(
    watched: Seq<Seq<char>>,
    cooldown: Seq<Option<Timestamp>>,
    word: Seq<char>,
    path: Seq<char>,
    now: Timestamp,
    i: int,
)
    requires
        watched.len() == cooldown.len(),
        0 <= i < watched.len(),
        !same_path(watched[i], path),
    ensures
        noticed(watched, cooldown, word, path, now).0[i] == cooldown[i],
        noticed(watched, cooldown, word, path, now).1 is Some ==> exists|k: int|
            0 <= k < watched.len() && same_path(#[trigger] watched[k], path),
{
    lemma_position(watched, path, 0);
}

/// A change of a watched path raises an alert where none was raised for it
/// within the last minute, and the minute starts anew. The alert is critical
/// for an identity file, and a warning for any other.
pub proof fn law_watched_changes_alert(
    watched: Seq<Seq<char>>,
    cooldown: Seq<Option<Timestamp>>,
    word: Seq<char>,
    path: Seq<char>,
    now: Timestamp,
    i: int,
)
    requires
        watched.len() == cooldown.len(),
        0 <= i < watched.len(),
        same_path(watched[i], path),
        forall|j: int| 0 <= j < i ==> !same_path(#[trigger] watched[j], path),
    ensures
        ({
            let (after, alert) = noticed(watched, cooldown, word, path, now);
            let last = cooldown[i]->0;
            let nanos = (now.secs - last.secs) * 1_000_000_000 + (now.nanos - last.nanos);
            let quiet = cooldown[i] is Some && nanos < 60_000_000_000;
            &&& alert is Some <==> !quiet
            &&& quiet ==> after == cooldown
            &&& !quiet ==> after == cooldown.update(i, Some(now))
            &&& alert is Some && (file_name(path) matches Some(n) && (n == "SOUL.md"@ || n
                == "AGENTS.md"@ || n == "USER.md"@)) ==> (alert->0).0 == "CRITICAL"@
            &&& alert is Some && !(file_name(path) matches Some(n) && (n == "SOUL.md"@ || n
                == "AGENTS.md"@ || n == "USER.md"@)) ==> (alert->0).0 == "WARNING"@
        }),
{
    reveal_strlit("unknown");
    reveal_strlit("SOUL.md");
    reveal_strlit("AGENTS.md");
    reveal_strlit("USER.md");
    assert("unknown"@[0] == 'u' && "SOUL.md"@[0] == 'S' && "AGENTS.md"@[0] == 'A' && "USER.md"@[0]
        == 'U');
    lemma_first_position(watched, path, 0, i);
}

/// The first place of a path is its position.
proof fn lemma_first_position(list: Seq<Seq<char>>, path: Seq<char>, from: int, i: int)
    requires
        0 <= from <= i < list.len(),
        same_path(list[i], path),
        forall|j: int| from <= j < i ==> !same_path(#[trigger] list[j], path),
    ensures
        position(list, path, from) == Some(i),
    decreases i - from,
{
    if from < i {
        assert(!same_path(list[from], path));
        lemma_first_position(list, path, from + 1, i);
    }
}

/// Only reading a file goes unnoticed; every other event has a word.
pub proof fn law_only_reads_go_unnoticed(kind: EventKind)
    ensures
        event_word(kind) is None <==> kind == EventKind::Access,
        kind == EventKind::Modify ==> event_word(kind) == Some("modified"@),
        kind == EventKind::Create ==> event_word(kind) == Some("created"@),
        kind == EventKind::Remove ==> event_word(kind) == Some("deleted"@),
{
}

/// The name of the file and what happened to it stand in the alert.
pub proof fn law_alert_names_file_and_event(filename: Seq<char>, word: Seq<char>)
    ensures
        exists|a: int, b: int|
            #![trigger change_alert(filename, word).1.subrange(a, a + filename.len()),
                change_alert(filename, word).1.subrange(b, b + word.len())]
            0 <= a && 0 <= b && change_alert(filename, word).1.subrange(a, a + filename.len())
                == filename && change_alert(filename, word).1.subrange(b, b + word.len()) == word,
{
    let m = change_alert(filename, word).1;
    if identity_name(filename) {
        let a = "IDENTITY FILE TAMPERED: "@.len() as int;
        let b = a + filename.len() + " was "@.len();
        assert(m.subrange(a, a + filename.len()) =~= filename);
        assert(m.subrange(b, b + word.len()) =~= word);
    } else {
        let a = "Config file changed: "@.len() as int;
        let b = a + filename.len() + " ("@.len();
        assert(m.subrange(a, a + filename.len()) =~= filename);
        assert(m.subrange(b, b + word.len()) =~= word);
    }
}

/// Events are noticed one by one: one more event, with one path, adds what that
/// path raises, unless it was only read.
pub proof fn law_events_are_noticed_in_turn(
    watched: Seq<Seq<char>>,
    cooldown: Seq<Option<Timestamp>>,
    events: Seq<WatchEvent>,
    now: Timestamp,
    n: int,
)
    requires
        0 < n <= events.len(),
    ensures
        ({
            let before = noticed_events(watched, cooldown, events, now, n - 1);
            let after = noticed_events(watched, cooldown, events, now, n);
            let e = events[n - 1];
            &&& e.kind == EventKind::Access ==> after == before
            &&& e.kind != EventKind::Access && e.paths@.len() == 1 ==> ({
                let (c, alert) = noticed(
                    watched,
                    before.0,
                    event_word(e.kind)->0,
                    e.paths@[0]@,
                    now,
                );
                after.0 == c && after.1 == match alert {
                    Some(a) => before.1.push(a),
                    None => before.1,
                }
            })
        }),
        noticed_events(watched, cooldown, events, now, 0) == (
            cooldown,
            Seq::<(Seq<char>, Seq<char>)>::empty(),
        ),
{
    let e = events[n - 1];
    if e.kind != EventKind::Access && e.paths@.len() == 1 {
        reveal_with_fuel(noticed_paths, 2);
        let before = noticed_events(watched, cooldown, events, now, n - 1);
        assert(e@.paths[0] == e.paths@[0]@);
        let w = event_word(e.kind)->0;
        let (c, alert) = noticed(watched, before.0, w, e.paths@[0]@, now);
        let more = noticed_paths(watched, before.0, w, e@.paths, now, 1).1;
        match alert {
            Some(a) => {
                assert(more =~= seq![a]);
                assert(before.1 + more =~= before.1.push(a));
            },
            None => {
                assert(before.1 + more =~= before.1);
            },
        }
    }
}

/// The paths of one event are noticed one by one.
pub proof fn law_paths_are_noticed_in_turn(
    watched: Seq<Seq<char>>,
    cooldown: Seq<Option<Timestamp>>,
    word: Seq<char>,
    paths: Seq<Seq<char>>,
    now: Timestamp,
    n: int,
)
    requires
        0 < n <= paths.len(),
    ensures
        ({
            let before = noticed_paths(watched, cooldown, word, paths, now, n - 1);
            let after = noticed_paths(watched, cooldown, word, paths, now, n);
            let (c, alert) = noticed(watched, before.0, word, paths[n - 1], now);
            &&& after.0 == c
            &&& alert is None ==> after.1 == before.1
            &&& alert is Some ==> after.1 == before.1.push(alert->0)
        }),
{
}

} // verus!
