use vstd::prelude::*;

use crate::domain::harness::apply::{json_value_is_object, parse_json_is_object};
use crate::text::{join_path, join_path_seq, lines, lines_of, owned};

verus! {

/// How many events a listing shows at most.
pub const MAX_RECENT_EVENTS: usize = 200;

/// The log of worktree and task events: one JSON record per line of a file
/// under `.worktrees`. Reading and appending the file is left to the caller.
#[derive(Debug, Clone)]
pub struct EventService {
    pub path: String,
}

/// `limit` brought into `1..=200`.
pub open spec fn clamped_limit(limit: usize) -> usize {
    if limit < 1 {
        1
    } else if limit > MAX_RECENT_EVENTS {
        MAX_RECENT_EVENTS
    } else {
        limit
    }
}

/// The last `n` lines, in their order.
pub open spec fn last_lines(ls: Seq<Seq<char>>, n: nat) -> Seq<Seq<char>> {
    if ls.len() <= n {
        ls
    } else {
        ls.skip(ls.len() - n)
    }
}

impl EventService {
    /// The event log of a repository.
    pub fn new(repo_root: &str) -> (e: Self)
        ensures
            e.path@ == join_path_seq(join_path_seq(repo_root@, ".worktrees"@), "events.jsonl"@),
    {
        let dir = join_path(repo_root, ".worktrees");
        EventService { path: join_path(dir.as_str(), "events.jsonl") }
    }

    /// The lines of the most recent events of the log's content: the last
    /// `limit` lines (kept within 1 to 200), oldest first.
    pub fn list_recent(&self, content: &str, limit: usize) -> (v: Vec<String>)
        ensures
            v@.map_values(|l: String| l@) == last_lines(
                lines_of(content@),
                clamped_limit(limit) as nat,
            ),
    {
        let n: usize = if limit < 1 {
            1
        } else if limit > MAX_RECENT_EVENTS {
            MAX_RECENT_EVENTS
        } else {
            limit
        };
        let all = lines(content);
        let ghost ls = lines_of(content@);
        let start: usize = if all.len() <= n {
            0
        } else {
            all.len() - n
        };
        let mut v: Vec<String> = Vec::new();
        let mut i: usize = start;
        while i < all.len()
            invariant
                start <= i <= all.len(),
                all@.map_values(|l: String| l@) == ls,
                v@.map_values(|l: String| l@) == ls.subrange(start as int, i as int),
            decreases all.len() - i,
        {
            let ghost before = v@.map_values(|l: String| l@);
            let line = owned(all[i].as_str());
            let ghost lv = line@;
            v.push(line);
            assert(v@.map_values(|l: String| l@) =~= before.push(lv));
            assert(ls[i as int] == all@[i as int]@);
            assert(ls.subrange(start as int, i + 1) =~= ls.subrange(start as int, i as int).push(
                lv,
            ));
            i += 1;
        }
        assert(ls.subrange(start as int, all.len() as int) =~= last_lines(ls, n as nat));
        v
    }
}

} // verus!

verus! {

/// One line of the event log as a listing shows it: the record when the line
/// is JSON, else the raw line under a `parse_error` event.
#[derive(Debug, Clone, PartialEq, Eq)]
pub enum EventItem {
    Record(String),
    ParseError(String),
}

pub open spec fn event_item_view(e: EventItem) -> (bool, Seq<char>) {
    match e {
        EventItem::Record(l) => (true, l@),
        EventItem::ParseError(l) => (false, l@),
    }
}

/// Each line as a listing shows it, in order.
pub open spec fn event_items_of(ls: Seq<Seq<char>>) -> Seq<(bool, Seq<char>)> {
    ls.map_values(|l: Seq<char>| (json_value_is_object(l) is Some, l))
}

impl EventService {
    /// The most recent events of the log's content, as `list_recent` picks
    /// them, each marked as a record or a line that is not JSON.
    pub fn recent_items(&self, content: &str, limit: usize) -> (v: Vec<EventItem>)
        ensures
            v@.map_values(|e: EventItem| event_item_view(e)) == event_items_of(
                last_lines(lines_of(content@), clamped_limit(limit) as nat),
            ),
    {
        let picked = self.list_recent(content, limit);
        let ghost ls = picked@.map_values(|l: String| l@);
        let mut v: Vec<EventItem> = Vec::new();
        let mut i: usize = 0;
        while i < picked.len()
            invariant
                0 <= i <= picked.len(),
                ls == picked@.map_values(|l: String| l@),
                v@.map_values(|e: EventItem| event_item_view(e)) == event_items_of(
                    ls.take(i as int),
                ),
            decreases picked.len() - i,
        {
            let ghost before = v@.map_values(|e: EventItem| event_item_view(e));
            let line = owned(picked[i].as_str());
            let item = match parse_json_is_object(line.as_str()) {
                Some(_) => EventItem::Record(line),
                None => EventItem::ParseError(line),
            };
            let ghost iv = event_item_view(item);
            v.push(item);
            assert(v@.map_values(|e: EventItem| event_item_view(e)) =~= before.push(iv));
            assert(ls.take(i + 1) =~= ls.take(i as int).push(ls[i as int]));
            assert(event_items_of(ls.take(i + 1)) =~= event_items_of(ls.take(i as int)).push(iv));
            i += 1;
        }
        assert(ls.take(picked.len() as int) =~= ls);
        v
    }
}

} // verus!
