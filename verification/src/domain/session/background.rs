use vstd::prelude::*;

use crate::text::{
    char_count, chars_of, concat2, contains, contains_seq, decimal, is_empty_text, owned,
    push_char, push_str, str_eq, take_chars, trim, trim_seq, u64_to_decimal,
};

verus! {

/// Characters of a command's output that are kept.
pub const MAX_OUTPUT_CHARS: usize = 50_000;

/// Characters of a result that a notification carries.
pub const MAX_NOTIFICATION_CHARS: usize = 500;

// ---------------------------------------------------------------------------
// Texts
// ---------------------------------------------------------------------------

/// A text cut to its first `limit` characters.
pub open spec fn truncated(text: Seq<char>, limit: usize) -> Seq<char> {
    if text.len() <= limit {
        text
    } else {
        text.take(limit as int)
    }
}

pub fn truncate(text: String, limit: usize) -> (r: String)
    ensures
        r@ == truncated(text@, limit),
{
    if char_count(text.as_str()) <= limit {
        return text;
    }
    take_chars(text.as_str(), limit)
}

/// A command that is never run in the background: one that mentions
/// `rm -rf /`, `sudo`, `shutdown` or `reboot`.
pub open spec fn dangerous(command: Seq<char>) -> bool {
    contains_seq(command, "rm -rf /"@) || contains_seq(command, "sudo"@) || contains_seq(
        command,
        "shutdown"@,
    ) || contains_seq(command, "reboot"@)
}

pub fn is_dangerous(command: &str) -> (b: bool)
    ensures
        b == dangerous(command@),
{
    contains(command, "rm -rf /") || contains(command, "sudo") || contains(command, "shutdown")
        || contains(command, "reboot")
}

pub open spec fn hex_digit(d: nat) -> char {
    if d < 10 {
        (('0' as u32) + d) as char
    } else {
        (('a' as u32) + d - 10) as char
    }
}

/// The lowercase hexadecimal digits of `n`.
pub open spec fn hex_text(n: nat) -> Seq<char>
    decreases n,
{
    if n < 16 {
        seq![hex_digit(n)]
    } else {
        hex_text(n / 16).push(hex_digit(n % 16))
    }
}

/// `s` with `0`s in front up to `width` characters.
pub open spec fn zero_padded(s: Seq<char>, width: nat) -> Seq<char> {
    if s.len() >= width {
        s
    } else {
        Seq::new((width - s.len()) as nat, |i: int| '0') + s
    }
}

/// The id of the background task numbered `n` (`format!("{:08x}", n)`).
pub open spec fn task_id_text(n: u64) -> Seq<char> {
    zero_padded(hex_text(n as nat), 8)
}

fn hex_digit_char(d: u64) -> (c: char)
    requires
        d < 16,
    ensures
        c == hex_digit(d as nat),
{
    if d < 10 {
        ((48u8 + d as u8) as char)
    } else {
        ((87u8 + d as u8) as char)
    }
}

fn hex_string(n: u64) -> (r: String)
    ensures
        r@ == hex_text(n as nat),
    decreases n,
{
    if n < 16 {
        let mut r = String::new();
        push_char(&mut r, hex_digit_char(n));
        assert(r@ =~= seq![hex_digit(n as nat)]);
        r
    } else {
        let mut r = hex_string(n / 16);
        push_char(&mut r, hex_digit_char(n % 16));
        r
    }
}

pub fn task_id_for(n: u64) -> (r: String)
    ensures
        r@ == task_id_text(n),
{
    let digits = hex_string(n);
    let len = char_count(digits.as_str());
    if len >= 8 {
        return digits;
    }
    let mut r = String::new();
    let mut i: usize = 0;
    while i < 8 - len
        invariant
            0 <= i <= 8 - len,
            len == digits@.len(),
            len < 8,
            r@ == Seq::new(i as nat, |k: int| '0'),
        decreases 8 - len - i,
    {
        push_char(&mut r, '0');
        assert(r@ =~= Seq::new((i + 1) as nat, |k: int| '0'));
        i += 1;
    }
    push_str(&mut r, digits.as_str());
    r
}

// ---------------------------------------------------------------------------
// The manager
// ---------------------------------------------------------------------------

/// A notification that a background task ended.
#[derive(Debug, Clone)]
pub struct BackgroundNotification {
    pub task_id: String,
    pub status: String,
    pub result: String,
}

pub struct BackgroundNotificationView {
    pub task_id: Seq<char>,
    pub status: Seq<char>,
    pub result: Seq<char>,
}

impl View for BackgroundNotification {
    type V = BackgroundNotificationView;

    open spec fn view(&self) -> BackgroundNotificationView {
        BackgroundNotificationView {
            task_id: self.task_id@,
            status: self.status@,
            result: self.result@,
        }
    }
}

pub open spec fn notification_views(ns: Seq<BackgroundNotification>) -> Seq<
    BackgroundNotificationView,
> {
    ns.map_values(|n: BackgroundNotification| n@)
}

#[derive(Debug)]
struct BackgroundTask {
    id: String,
    status: String,
    command: String,
    result: Option<String>,
}

/// What the manager knows of one task.
pub struct BackgroundTaskView {
    pub id: Seq<char>,
    pub status: Seq<char>,
    pub command: Seq<char>,
    pub result: Option<Seq<char>>,
}

impl View for BackgroundTask {
    type V = BackgroundTaskView;

    closed spec fn view(&self) -> BackgroundTaskView {
        BackgroundTaskView {
            id: self.id@,
            status: self.status@,
            command: self.command@,
            result: match self.result {
                Some(r) => Some(r@),
                None => None,
            },
        }
    }
}

/// The state of the background work of a session: the tasks in the order they
/// were started, the notifications not yet drained, and the number of the
/// next task.
pub struct BackgroundView {
    pub workdir: Seq<char>,
    pub tasks: Seq<BackgroundTaskView>,
    pub notifications: Seq<BackgroundNotificationView>,
    pub next_id: u64,
}

/// No two tasks share an id.
pub open spec fn ids_unique(tasks: Seq<BackgroundTaskView>) -> bool {
    forall|i: int, j: int| 0 <= i < j < tasks.len() ==> tasks[i].id != tasks[j].id
}

/// Where the task with `id` stands, if there is one.
pub open spec fn task_index(tasks: Seq<BackgroundTaskView>, id: Seq<char>) -> Option<int> {
    if exists|i: int| 0 <= i < tasks.len() && tasks[i].id == id {
        Some(choose|i: int| 0 <= i < tasks.len() && tasks[i].id == id)
    } else {
        None
    }
}

/// Runs shell commands of a session in the background and collects what they
/// gave; the commands themselves are run by the caller.
pub struct BackgroundManager {
    workdir: String,
    tasks: Vec<BackgroundTask>,
    notifications: Vec<BackgroundNotification>,
    next_id: u64,
}

impl View for BackgroundManager {
    type V = BackgroundView;

    closed spec fn view(&self) -> BackgroundView {
        BackgroundView {
            workdir: self.workdir@,
            tasks: self.tasks@.map_values(|t: BackgroundTask| t@),
            notifications: notification_views(self.notifications@),
            next_id: self.next_id,
        }
    }
}

/// A command to run, as the manager accepted it.
#[derive(Debug)]
pub struct BackgroundLaunch {
    pub task_id: String,
    pub command: String,
    pub timeout_secs: u64,
}

pub open spec fn status_line(t: BackgroundTaskView) -> Seq<char> {
    "["@ + t.status + "] "@ + match t.result {
        Some(r) => r,
        None => "(running)"@,
    }
}

pub open spec fn listing_line(t: BackgroundTaskView) -> Seq<char> {
    t.id + ": ["@ + t.status + "] "@ + truncated(t.command, 60)
}

/// The lines of a task listing, joined with `\n`.
pub open spec fn listing(tasks: Seq<BackgroundTaskView>) -> Seq<char>
    decreases tasks.len(),
{
    if tasks.len() == 0 {
        Seq::empty()
    } else if tasks.len() == 1 {
        listing_line(tasks[0])
    } else {
        listing(tasks.drop_last()) + "\n"@ + listing_line(tasks.last())
    }
}

/// What `check` answers: the state of one task, or the list of all tasks.
pub open spec fn check_text(tasks: Seq<BackgroundTaskView>, task_id: Option<Seq<char>>) -> Seq<
    char,
> {
    let wanted = match task_id {
        Some(id) => trim_seq(id),
        None => Seq::empty(),
    };
    if wanted.len() > 0 {
        match task_index(tasks, wanted) {
            Some(i) => status_line(tasks[i]),
            None => "Unknown: "@ + wanted,
        }
    } else if tasks.len() == 0 {
        "No bg tasks."@
    } else {
        listing(tasks)
    }
}

pub open spec fn started_text(task_id: Seq<char>, command: Seq<char>) -> Seq<char> {
    "Background task "@ + task_id + " started: "@ + truncated(command, 80)
}

impl BackgroundManager {
    pub closed spec fn wf(self) -> bool {
        ids_unique(self@.tasks)
    }

    pub fn new(workdir: String) -> (m: Self)
        ensures
            m.wf(),
            m@.workdir == workdir@,
            m@.tasks.len() == 0,
            m@.notifications.len() == 0,
            m@.next_id == 1,
    {
        let m = BackgroundManager {
            workdir,
            tasks: Vec::new(),
            notifications: Vec::new(),
            next_id: 1,
        };
        assert(m@.tasks =~= Seq::<BackgroundTaskView>::empty());
        m
    }

    pub fn workdir(&self) -> (w: &str)
        ensures
            w@ == self@.workdir,
    {
        self.workdir.as_str()
    }

    fn find(&self, id: &str) -> (r: Option<usize>)
        requires
            self.wf(),
        ensures
            match r {
                Some(i) => task_index(self@.tasks, id@) == Some(i as int),
                None => task_index(self@.tasks, id@) is None,
            },
    {
        let ghost ts = self@.tasks;
        let mut i: usize = 0;
        while i < self.tasks.len()
            invariant
                0 <= i <= self.tasks.len(),
                ts == self@.tasks,
                ts.len() == self.tasks.len(),
                ids_unique(ts),
                forall|k: int| 0 <= k < i ==> ts[k].id != id@,
            decreases self.tasks.len() - i,
        {
            assert(ts[i as int] == self.tasks@[i as int]@);
            if str_eq(self.tasks[i].id.as_str(), id) {
                let ghost c = choose|k: int| 0 <= k < ts.len() && ts[k].id == id@;
                assert(c == i);
                return Some(i);
            }
            i += 1;
        }
        None
    }

    /// Accepts a command to run in the background within `timeout_secs`. A
    /// blank or dangerous command is refused with the reply; an accepted one
    /// becomes a running task under the next number, and the caller runs it
    /// and reports with `complete`.
    pub fn run(&mut self, command: &str, timeout_secs: u64) -> (r: (String, Option<BackgroundLaunch>))
        requires
            old(self).wf(),
        ensures
            final(self).wf(),
            final(self)@.workdir == old(self)@.workdir,
            final(self)@.notifications == old(self)@.notifications,
            trim_seq(command@).len() == 0 ==> r.0@
                == "Error: background_run requires a non-empty command"@ && r.1 is None
                && final(self)@ == old(self)@,
            trim_seq(command@).len() > 0 && dangerous(trim_seq(command@)) ==> r.0@
                == "Error: Dangerous command blocked"@ && r.1 is None && final(self)@ == old(
                self,
            )@,
            trim_seq(command@).len() > 0 && !dangerous(trim_seq(command@)) ==> {
                let id = task_id_text(old(self)@.next_id);
                let task = BackgroundTaskView {
                    id,
                    status: "running"@,
                    command: trim_seq(command@),
                    result: None,
                };
                &&& r.1 matches Some(l) && l.task_id@ == id && l.command@ == trim_seq(command@)
                    && l.timeout_secs == timeout_secs
                &&& r.0@ == started_text(id, trim_seq(command@))
                &&& final(self)@.next_id == (if old(self)@.next_id == u64::MAX {
                    0
                } else {
                    old(self)@.next_id + 1
                })
                &&& match task_index(old(self)@.tasks, id) {
                    Some(i) => final(self)@.tasks == old(self)@.tasks.update(i, task),
                    None => final(self)@.tasks == old(self)@.tasks.push(task),
                }
            },
    {
        let command = trim(command);
        if is_empty_text(command.as_str()) {
            return (owned("Error: background_run requires a non-empty command"), None);
        }
        if is_dangerous(command.as_str()) {
            return (owned("Error: Dangerous command blocked"), None);
        }
        let task_id = task_id_for(self.next_id);
        self.next_id = if self.next_id == u64::MAX {
            0
        } else {
            self.next_id + 1
        };
        let task = BackgroundTask {
            id: owned(task_id.as_str()),
            status: owned("running"),
            command: owned(command.as_str()),
            result: None,
        };
        let ghost tv = task@;
        let ghost before = self@.tasks;
        match self.find(task_id.as_str()) {
            Some(i) => {
                self.tasks.set(i, task);
                proof {
                    assert(self@.tasks =~= before.update(i as int, tv));
                    assert forall|a: int, b: int| 0 <= a < b < self@.tasks.len() implies self@.tasks[a].id
                        != self@.tasks[b].id by {
                        if a != i && b != i {
                            assert(before[a].id != before[b].id);
                        }
                    }
                }
            },
            None => {
                self.tasks.push(task);
                proof {
                    assert(self@.tasks =~= before.push(tv));
                    assert forall|a: int, b: int| 0 <= a < b < self@.tasks.len() implies self@.tasks[a].id
                        != self@.tasks[b].id by {
                        if b == before.len() {
                            assert(before[a].id != tv.id);
                        } else {
                            assert(before[a].id != before[b].id);
                        }
                    }
                }
            },
        }
        let mut reply = concat2("Background task ", task_id.as_str());
        push_str(&mut reply, " started: ");
        push_str(&mut reply, truncate(owned(command.as_str()), 80).as_str());
        (reply, Some(BackgroundLaunch { task_id, command, timeout_secs }))
    }

    /// Records that a task ended: with `Ok(output)` it completed, with
    /// `Err(message)` it failed. The task (if known) keeps the full result, and
    /// a notification with the result cut to 500 characters is queued.
    pub fn complete(&mut self, task_id: &str, outcome: Result<String, String>)
        requires
            old(self).wf(),
        ensures
            final(self).wf(),
            final(self)@.workdir == old(self)@.workdir,
            final(self)@.next_id == old(self)@.next_id,
            ({
                let (status, result) = match outcome {
                    Ok(o) => ("completed"@, o@),
                    Err(e) => ("error"@, e@),
                };
                &&& final(self)@.notifications == old(self)@.notifications.push(
                    BackgroundNotificationView {
                        task_id: task_id@,
                        status,
                        result: truncated(result, MAX_NOTIFICATION_CHARS),
                    },
                )
                &&& match task_index(old(self)@.tasks, task_id@) {
                    Some(i) => final(self)@.tasks == old(self)@.tasks.update(
                        i,
                        BackgroundTaskView {
                            status,
                            result: Some(result),
                            ..old(self)@.tasks[i]
                        },
                    ),
                    None => final(self)@.tasks == old(self)@.tasks,
                }
            }),
    {
        let (status, result) = match outcome {
            Ok(o) => (owned("completed"), o),
            Err(e) => (owned("error"), e),
        };
        let ghost before = self@.tasks;
        match self.find(task_id) {
            Some(i) => {
                let old_task = self.tasks.remove(i);
                let ghost ov = old_task@;
                let task = BackgroundTask {
                    id: old_task.id,
                    status: owned(status.as_str()),
                    command: old_task.command,
                    result: Some(owned(result.as_str())),
                };
                let ghost tv = task@;
                self.tasks.insert(i, task);
                proof {
                    assert(ov == before[i as int]);
                    assert(self@.tasks =~= before.update(i as int, tv));
                    assert forall|a: int, b: int| 0 <= a < b < self@.tasks.len() implies self@.tasks[a].id
                        != self@.tasks[b].id by {
                        assert(before[a].id != before[b].id);
                    }
                }
            },
            None => {},
        }
        let note = BackgroundNotification {
            task_id: owned(task_id),
            status,
            result: truncate(result, MAX_NOTIFICATION_CHARS),
        };
        let ghost nb = self@.notifications;
        self.notifications.push(note);
        assert(self@.notifications =~= nb.push(note@));
    }

    fn listing_text(&self) -> (s: String)
        ensures
            s@ == listing(self@.tasks),
    {
        let ghost ts = self@.tasks;
        let mut s = String::new();
        let mut i: usize = 0;
        assert(ts.take(0) =~= Seq::<BackgroundTaskView>::empty());
        while i < self.tasks.len()
            invariant
                0 <= i <= self.tasks.len(),
                ts == self@.tasks,
                ts.len() == self.tasks.len(),
                s@ == listing(ts.take(i as int)),
            decreases self.tasks.len() - i,
        {
            let t = &self.tasks[i];
            assert(ts[i as int] == t@);
            assert(ts.take(i + 1).drop_last() =~= ts.take(i as int));
            assert(ts.take(i + 1).last() == t@);
            if i > 0 {
                push_str(&mut s, "\n");
            } else {
                assert(ts.take(1) =~= seq![t@]);
            }
            push_str(&mut s, t.id.as_str());
            push_str(&mut s, ": [");
            push_str(&mut s, t.status.as_str());
            push_str(&mut s, "] ");
            push_str(&mut s, truncate(owned(t.command.as_str()), 60).as_str());
            i += 1;
        }
        assert(ts.take(self.tasks.len() as int) =~= ts);
        s
    }

    /// The state of one task, or with no (or a blank) id the list of all.
    pub fn check(&self, task_id: Option<&str>) -> (s: String)
        requires
            self.wf(),
        ensures
            s@ == check_text(
                self@.tasks,
                match task_id {
                    Some(id) => Some(id@),
                    None => None,
                },
            ),
    {
        let wanted = match task_id {
            Some(id) => trim(id),
            None => String::new(),
        };
        if !is_empty_text(wanted.as_str()) {
            return match self.find(wanted.as_str()) {
                Some(i) => {
                    let t = &self.tasks[i];
                    assert(self@.tasks[i as int] == t@);
                    let mut s = concat2("[", t.status.as_str());
                    push_str(&mut s, "] ");
                    match &t.result {
                        Some(r) => push_str(&mut s, r.as_str()),
                        None => push_str(&mut s, "(running)"),
                    }
                    s
                },
                None => concat2("Unknown: ", wanted.as_str()),
            };
        }
        if self.tasks.len() == 0 {
            return owned("No bg tasks.");
        }
        self.listing_text()
    }

    /// Hands out the queued notifications, oldest first, and forgets them.
    pub fn drain(&mut self) -> (v: Vec<BackgroundNotification>)
        requires
            old(self).wf(),
        ensures
            final(self).wf(),
            notification_views(v@) == old(self)@.notifications,
            final(self)@.notifications.len() == 0,
            final(self)@.tasks == old(self)@.tasks,
            final(self)@.workdir == old(self)@.workdir,
            final(self)@.next_id == old(self)@.next_id,
    {
        let mut v: Vec<BackgroundNotification> = Vec::new();
        std::mem::swap(&mut v, &mut self.notifications);
        assert(notification_views(self.notifications@) =~= Seq::<
            BackgroundNotificationView,
        >::empty());
        v
    }
}

// ---------------------------------------------------------------------------
// What a finished command gave
// ---------------------------------------------------------------------------

/// The result of a command from its output: standard output then standard
/// error, trimmed and cut to 50000 characters, `(no output)` when nothing is
/// left; an error when the command failed.
pub open spec fn command_result(stdout: Seq<char>, stderr: Seq<char>, success: bool) -> Result<
    Seq<char>,
    Seq<char>,
> {
    let combined = truncated(trim_seq(stdout + stderr), MAX_OUTPUT_CHARS);
    let text = if combined.len() == 0 {
        "(no output)"@
    } else {
        combined
    };
    if success {
        Ok(text)
    } else {
        Err(text)
    }
}

pub fn command_outcome(stdout: &str, stderr: &str, success: bool) -> (r: Result<String, String>)
    ensures
        match r {
            Ok(o) => command_result(stdout@, stderr@, success) == Ok::<Seq<char>, Seq<char>>(o@),
            Err(e) => command_result(stdout@, stderr@, success) == Err::<Seq<char>, Seq<char>>(
                e@,
            ),
        },
{
    let both = concat2(stdout, stderr);
    let combined = truncate(trim(both.as_str()), MAX_OUTPUT_CHARS);
    let text = if is_empty_text(combined.as_str()) {
        owned("(no output)")
    } else {
        combined
    };
    if success {
        Ok(text)
    } else {
        Err(text)
    }
}

/// The error of a command that ran out of time.
pub fn timeout_message(timeout_secs: u64) -> (s: String)
    ensures
        s@ == "Timeout ("@ + decimal(timeout_secs as nat) + "s)"@,
{
    let mut s = concat2("Timeout (", u64_to_decimal(timeout_secs).as_str());
    push_str(&mut s, "s)");
    s
}

} // verus!
