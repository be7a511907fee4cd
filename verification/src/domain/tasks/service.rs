use vstd::prelude::*;

use crate::domain::chat::tool_schema::{schema_entries_of, schema_parameters, tool_parameter, tool_schema, ToolSchema};
use crate::json::{
    json_str_field, json_string_field, json_u64_at, json_u64_field, json_u64_items, json_u64_items_at,
    nonblank_arg, nonblank_argument, opt_view,
};
use crate::text::{
    concat2, decimal, is_empty_text, owned, push_str, str_eq, trim, trim_seq, u64_to_decimal,
};

verus! {

// ---------------------------------------------------------------------------
// Records
// ---------------------------------------------------------------------------

/// One task of the shared task board. Times are nanoseconds since the Unix
/// epoch.
#[derive(Debug)]
pub struct TaskRecord {
    pub id: u64,
    pub subject: String,
    pub description: String,
    pub status: String,
    pub owner: String,
    pub worktree: String,
    pub blocked_by: Vec<u64>,
    pub blocks: Vec<u64>,
    pub created_at: u64,
    pub updated_at: u64,
}

pub struct TaskRecordView {
    pub id: u64,
    pub subject: Seq<char>,
    pub description: Seq<char>,
    pub status: Seq<char>,
    pub owner: Seq<char>,
    pub worktree: Seq<char>,
    pub blocked_by: Seq<u64>,
    pub blocks: Seq<u64>,
    pub created_at: u64,
    pub updated_at: u64,
}

impl View for TaskRecord {
    type V = TaskRecordView;

    open spec fn view(&self) -> TaskRecordView {
        TaskRecordView {
            id: self.id,
            subject: self.subject@,
            description: self.description@,
            status: self.status@,
            owner: self.owner@,
            worktree: self.worktree@,
            blocked_by: self.blocked_by@,
            blocks: self.blocks@,
            created_at: self.created_at,
            updated_at: self.updated_at,
        }
    }
}

fn copy_ids(v: &Vec<u64>) -> (r: Vec<u64>)
    ensures
        r@ == v@,
{
    let mut r: Vec<u64> = Vec::new();
    let mut i: usize = 0;
    while i < v.len()
        invariant
            0 <= i <= v.len(),
            r@ == v@.take(i as int),
        decreases v.len() - i,
    {
        r.push(v[i]);
        assert(r@ =~= v@.take(i + 1));
        i += 1;
    }
    assert(v@.take(v.len() as int) =~= v@);
    r
}

impl Clone for TaskRecord {
    fn clone(&self) -> (r: Self)
        ensures
            r@ == self@,
    {
        TaskRecord {
            id: self.id,
            subject: self.subject.clone(),
            description: self.description.clone(),
            status: self.status.clone(),
            owner: self.owner.clone(),
            worktree: self.worktree.clone(),
            blocked_by: copy_ids(&self.blocked_by),
            blocks: copy_ids(&self.blocks),
            created_at: self.created_at,
            updated_at: self.updated_at,
        }
    }
}

pub open spec fn record_views(rs: Seq<TaskRecord>) -> Seq<TaskRecordView> {
    rs.map_values(|r: TaskRecord| r@)
}

// ---------------------------------------------------------------------------
// Sets of task ids
// ---------------------------------------------------------------------------

pub open spec fn increasing(s: Seq<u64>) -> bool {
    forall|i: int, j: int| 0 <= i < j < s.len() ==> s[i] < s[j]
}

/// The ids of both lists, each once, in increasing order.
pub open spec fn is_merge(r: Seq<u64>, left: Seq<u64>, right: Seq<u64>) -> bool {
    &&& increasing(r)
    &&& forall|x: u64| r.contains(x) <==> (left.contains(x) || right.contains(x))
}

/// Adds `x` to an increasing list of ids, keeping it increasing.
fn insert_id(v: &mut Vec<u64>, x: u64)
    requires
        increasing(old(v)@),
    ensures
        increasing(final(v)@),
        forall|y: u64| final(v)@.contains(y) <==> (old(v)@.contains(y) || y == x),
{
    let mut i: usize = 0;
    while i < v.len() && v[i] < x
        invariant
            0 <= i <= v.len(),
            v@ == old(v)@,
            increasing(v@),
            forall|k: int| 0 <= k < i ==> v@[k] < x,
        decreases v.len() - i,
    {
        i += 1;
    }
    if i < v.len() && v[i] == x {
        assert(v@[i as int] == x);
        return;
    }
    let ghost before = v@;
    v.insert(i, x);
    proof {
        assert(v@ =~= before.take(i as int).push(x) + before.skip(i as int));
        assert forall|a: int, b: int| 0 <= a < b < v@.len() implies v@[a] < v@[b] by {
            if b == i {
                assert(v@[a] == before[a]);
            } else if a == i {
                assert(v@[b] == before[b - 1]);
                assert(before[i as int] > x || before[i as int] >= x);
            } else if a < i && b > i {
                assert(v@[a] == before[a]);
                assert(v@[b] == before[b - 1]);
            } else if a > i {
                assert(v@[a] == before[a - 1]);
                assert(v@[b] == before[b - 1]);
            } else {
                assert(v@[a] == before[a]);
                assert(v@[b] == before[b]);
            }
        }
        assert forall|y: u64| v@.contains(y) <==> (before.contains(y) || y == x) by {
            if v@.contains(y) {
                let k = choose|k: int| 0 <= k < v@.len() && v@[k] == y;
                if k < i {
                    assert(before[k] == y);
                } else if k > i {
                    assert(before[k - 1] == y);
                }
            }
            if before.contains(y) {
                let k = choose|k: int| 0 <= k < before.len() && before[k] == y;
                if k < i {
                    assert(v@[k] == y);
                } else {
                    assert(v@[k + 1] == y);
                }
            }
            if y == x {
                assert(v@[i as int] == x);
            }
        }
    }
}

/// The union of two lists of ids, each id once, in increasing order.
pub fn merge_ids(left: &Vec<u64>, right: &Vec<u64>) -> (r: Vec<u64>)
    ensures
        is_merge(r@, left@, right@),
{
    let mut r: Vec<u64> = Vec::new();
    let mut i: usize = 0;
    while i < left.len()
        invariant
            0 <= i <= left.len(),
            increasing(r@),
            forall|y: u64| r@.contains(y) <==> left@.take(i as int).contains(y),
        decreases left.len() - i,
    {
        insert_id(&mut r, left[i]);
        proof {
            let pa = left@.take(i as int);
            let pb = left@.take(i + 1);
            assert(pb =~= pa.push(left@[i as int]));
            assert forall|y: u64| r@.contains(y) <==> pb.contains(y) by {
                if pa.contains(y) {
                    let k = choose|k: int| 0 <= k < pa.len() && pa[k] == y;
                    assert(pb[k] == y);
                }
                if pb.contains(y) {
                    let k = choose|k: int| 0 <= k < pb.len() && pb[k] == y;
                    if k < i {
                        assert(pa[k] == y);
                    }
                }
                assert(pb[i as int] == left@[i as int]);
            }
        }
        i += 1;
    }
    assert(left@.take(left.len() as int) =~= left@);
    let mut j: usize = 0;
    while j < right.len()
        invariant
            0 <= j <= right.len(),
            increasing(r@),
            forall|y: u64| r@.contains(y) <==> (left@.contains(y) || right@.take(j as int).contains(
                y,
            )),
        decreases right.len() - j,
    {
        insert_id(&mut r, right[j]);
        proof {
            let pa = right@.take(j as int);
            let pb = right@.take(j + 1);
            assert(pb =~= pa.push(right@[j as int]));
            assert forall|y: u64| r@.contains(y) <==> (left@.contains(y) || pb.contains(y)) by {
                if pa.contains(y) {
                    let k = choose|k: int| 0 <= k < pa.len() && pa[k] == y;
                    assert(pb[k] == y);
                }
                if pb.contains(y) {
                    let k = choose|k: int| 0 <= k < pb.len() && pb[k] == y;
                    if k < j {
                        assert(pa[k] == y);
                    }
                }
                assert(pb[j as int] == right@[j as int]);
            }
        }
        j += 1;
    }
    assert(right@.take(right.len() as int) =~= right@);
    r
}

/// How many ids a run of creates with these subjects uses: one for each
/// subject that is not blank once trimmed.
pub open spec fn ids_used(subjects: Seq<Seq<char>>) -> nat
    decreases subjects.len(),
{
    if subjects.len() == 0 {
        0
    } else {
        ids_used(subjects.drop_last()) + if trim_seq(subjects.last()).len() > 0 {
            1nat
        } else {
            0nat
        }
    }
}

/// The board's next id when the create of `subjects[i]` comes, after the
/// creates before it, on a board whose next id was `n`: the id that create
/// gives its task when the subject is not blank.
pub open spec fn create_id_at(n: int, subjects: Seq<Seq<char>>, i: int) -> int {
    n + ids_used(subjects.take(i))
}

proof fn lemma_ids_used_concat(a: Seq<Seq<char>>, b: Seq<Seq<char>>)
    ensures
        ids_used(a + b) == ids_used(a) + ids_used(b),
    decreases b.len(),
{
    if b.len() > 0 {
        lemma_ids_used_concat(a, b.drop_last());
        assert((a + b).drop_last() =~= a + b.drop_last());
        assert((a + b).last() == b.last());
    }
}

/// Task ids grow by one over successive creates: each create moves the next
/// id on by one exactly when its subject is not blank, and the next create
/// with a subject after one with a subject gets the id one more, the blank
/// ones between using none.
pub proof fn lemma_create_ids_grow_by_one(n: int, subjects: Seq<Seq<char>>, i: int, j: int)
    requires
        0 <= i < j < subjects.len(),
        trim_seq(subjects[i]).len() > 0,
    ensures
        create_id_at(n, subjects, i + 1) == create_id_at(n, subjects, i) + 1,
        create_id_at(n, subjects, j) == create_id_at(n, subjects, i) + 1 + ids_used(
            subjects.subrange(i + 1, j),
        ),
        ids_used(subjects.subrange(i + 1, j)) == 0 ==> create_id_at(n, subjects, j) == create_id_at(
            n,
            subjects,
            i,
        ) + 1,
{
    assert(subjects.take(i + 1).drop_last() =~= subjects.take(i));
    assert(subjects.take(i + 1).last() == subjects[i]);
    lemma_ids_used_concat(subjects.take(i + 1), subjects.subrange(i + 1, j));
    assert(subjects.take(i + 1) + subjects.subrange(i + 1, j) =~= subjects.take(j));
}

/// A task that a teammate may take is pending, has no owner and is blocked
/// by nothing; in particular a task that someone owns is never taken from
/// them, whatever its status.
pub proof fn lemma_claimable_is_unowned_pending(t: TaskRecordView)
    ensures
        claimable(t) ==> t.status == "pending"@ && t.owner.len() == 0 && t.blocked_by.len() == 0,
        t.owner.len() > 0 ==> !claimable(t),
        t.status == "pending"@ && t.owner.len() == 0 && t.blocked_by.len() == 0 ==> claimable(t),
{
}

/// Merging two lists of ids gives the same list whichever comes first.
pub proof fn lemma_merge_unique(a: Seq<u64>, b: Seq<u64>, left: Seq<u64>, right: Seq<u64>)
    requires
        is_merge(a, left, right),
        is_merge(b, right, left),
    ensures
        a == b,
{
    lemma_increasing_same_elements(a, b);
}

proof fn lemma_increasing_same_elements(a: Seq<u64>, b: Seq<u64>)
    requires
        increasing(a),
        increasing(b),
        forall|x: u64| a.contains(x) <==> b.contains(x),
    ensures
        a == b,
    decreases a.len() + b.len(),
{
    if a.len() == 0 {
        if b.len() > 0 {
            assert(b.contains(b[0]));
        }
        assert(a =~= b);
    } else if b.len() == 0 {
        assert(a.contains(a[0]));
    } else {
        // the first elements are both the least element
        assert(a.contains(a[0]));
        assert(b.contains(b[0]));
        let ka = choose|k: int| 0 <= k < a.len() && a[k] == b[0];
        let kb = choose|k: int| 0 <= k < b.len() && b[k] == a[0];
        if ka > 0 {
            assert(a[0] < a[ka]);
        }
        if kb > 0 {
            assert(b[0] < b[kb]);
        }
        assert(a[0] == b[0]);
        let ra = a.drop_first();
        let rb = b.drop_first();
        assert forall|x: u64| ra.contains(x) <==> rb.contains(x) by {
            if ra.contains(x) {
                let k = choose|k: int| 0 <= k < ra.len() && ra[k] == x;
                assert(a[k + 1] == x);
                assert(a[0] < x);
                assert(b.contains(x));
                let m = choose|m: int| 0 <= m < b.len() && b[m] == x;
                assert(m != 0);
                assert(rb[m - 1] == x);
            }
            if rb.contains(x) {
                let k = choose|k: int| 0 <= k < rb.len() && rb[k] == x;
                assert(b[k + 1] == x);
                assert(b[0] < x);
                assert(a.contains(x));
                let m = choose|m: int| 0 <= m < a.len() && a[m] == x;
                assert(m != 0);
                assert(ra[m - 1] == x);
            }
        }
        lemma_increasing_same_elements(ra, rb);
        assert(a =~= seq![a[0]] + ra);
        assert(b =~= seq![b[0]] + rb);
    }
}

/// `ids` without `id`, in the same order.
pub open spec fn without_id(ids: Seq<u64>, id: u64) -> Seq<u64> {
    ids.filter(|x: u64| x != id)
}

fn remove_id(ids: &Vec<u64>, id: u64) -> (r: Vec<u64>)
    ensures
        r@ == without_id(ids@, id),
{
    let mut r: Vec<u64> = Vec::new();
    let mut i: usize = 0;
    while i < ids.len()
        invariant
            0 <= i <= ids.len(),
            r@ == without_id(ids@.take(i as int), id),
        decreases ids.len() - i,
    {
        proof {
            reveal(Seq::filter);
            assert(ids@.take(i + 1).drop_last() =~= ids@.take(i as int));
        }
        if ids[i] != id {
            r.push(ids[i]);
        }
        i += 1;
    }
    assert(ids@.take(ids.len() as int) =~= ids@);
    r
}

// ---------------------------------------------------------------------------
// The board
// ---------------------------------------------------------------------------

/// Why a task operation was refused.
#[derive(Debug, Clone, PartialEq, Eq)]
pub enum TaskError {
    SubjectEmpty,
    NotFound { task_id: u64 },
    InvalidStatus { status: String },
}

pub enum TaskErrorView {
    SubjectEmpty,
    NotFound { task_id: u64 },
    InvalidStatus { status: Seq<char> },
}

impl View for TaskError {
    type V = TaskErrorView;

    open spec fn view(&self) -> TaskErrorView {
        match self {
            TaskError::SubjectEmpty => TaskErrorView::SubjectEmpty,
            TaskError::NotFound { task_id } => TaskErrorView::NotFound { task_id: *task_id },
            TaskError::InvalidStatus { status } => TaskErrorView::InvalidStatus {
                status: status@,
            },
        }
    }
}

pub open spec fn task_error_text(e: TaskErrorView) -> Seq<char> {
    match e {
        TaskErrorView::SubjectEmpty => "subject cannot be empty"@,
        TaskErrorView::NotFound { task_id } => "Task "@ + decimal(task_id as nat) + " not found"@,
        TaskErrorView::InvalidStatus { status } => "Invalid status: "@ + status,
    }
}

impl TaskError {
    pub fn message(&self) -> (m: String)
        ensures
            m@ == task_error_text(self@),
    {
        match self {
            TaskError::SubjectEmpty => owned("subject cannot be empty"),
            TaskError::NotFound { task_id } => {
                let mut m = concat2("Task ", u64_to_decimal(*task_id).as_str());
                push_str(&mut m, " not found");
                m
            },
            TaskError::InvalidStatus { status } => concat2("Invalid status: ", status.as_str()),
        }
    }
}

/// The tasks in increasing order of id, no id twice.
pub open spec fn ids_increasing(ts: Seq<TaskRecordView>) -> bool {
    forall|i: int, j: int| 0 <= i < j < ts.len() ==> ts[i].id < ts[j].id
}

/// Where the task with `id` stands, if there is one.
pub open spec fn task_position(ts: Seq<TaskRecordView>, id: u64) -> Option<int> {
    if exists|i: int| 0 <= i < ts.len() && ts[i].id == id {
        Some(choose|i: int| 0 <= i < ts.len() && ts[i].id == id)
    } else {
        None
    }
}

/// `ts` with `r` put in its place by id: replacing the task with the same id,
/// or inserted before the first task with a greater id.
pub open spec fn upsert(ts: Seq<TaskRecordView>, r: TaskRecordView) -> Seq<TaskRecordView>
    decreases ts.len(),
{
    if ts.len() == 0 {
        seq![r]
    } else if r.id < ts[0].id {
        seq![r] + ts
    } else if r.id == ts[0].id {
        seq![r] + ts.drop_first()
    } else {
        seq![ts[0]] + upsert(ts.drop_first(), r)
    }
}

/// The board that a list of records makes: each put in its place in turn, a
/// later record replacing an earlier one with the same id.
pub open spec fn board_of(rs: Seq<TaskRecordView>) -> Seq<TaskRecordView>
    decreases rs.len(),
{
    if rs.len() == 0 {
        Seq::empty()
    } else {
        upsert(board_of(rs.drop_last()), rs.last())
    }
}

/// The greatest id of a list of records, or 0.
pub open spec fn max_id(rs: Seq<TaskRecordView>) -> u64
    decreases rs.len(),
{
    if rs.len() == 0 {
        0
    } else {
        let m = max_id(rs.drop_last());
        if rs.last().id > m {
            rs.last().id
        } else {
            m
        }
    }
}

pub open spec fn status_marker(status: Seq<char>) -> Seq<char> {
    if status == "pending"@ {
        "[ ]"@
    } else if status == "in_progress"@ {
        "[>]"@
    } else if status == "completed"@ {
        "[x]"@
    } else {
        "[?]"@
    }
}

/// One line of the task list.
pub open spec fn task_line(t: TaskRecordView) -> Seq<char> {
    status_marker(t.status) + " #"@ + decimal(t.id as nat) + ": "@ + t.subject + (if t.owner.len()
        == 0 {
        Seq::empty()
    } else {
        " owner="@ + t.owner
    }) + (if t.worktree.len() == 0 {
        Seq::empty()
    } else {
        " wt="@ + t.worktree
    })
}

pub open spec fn task_lines(ts: Seq<TaskRecordView>) -> Seq<char>
    decreases ts.len(),
{
    if ts.len() == 0 {
        Seq::empty()
    } else if ts.len() == 1 {
        task_line(ts[0])
    } else {
        task_lines(ts.drop_last()) + "\n"@ + task_line(ts.last())
    }
}

/// The statuses a task can be given.
pub open spec fn known_status(s: Seq<char>) -> bool {
    s == "pending"@ || s == "in_progress"@ || s == "completed"@ || s == "deleted"@
}

/// A task that a teammate may take: pending, without owner, blocked by nothing.
pub open spec fn claimable(t: TaskRecordView) -> bool {
    t.status == "pending"@ && t.owner.len() == 0 && t.blocked_by.len() == 0
}

pub enum TaskUpdateView {
    Deleted { message: Seq<char> },
    Saved { task: TaskRecordView },
}

pub open spec fn update_view(r: Result<TaskUpdate, TaskError>) -> Result<TaskUpdateView, TaskErrorView> {
    match r {
        Ok(TaskUpdate::Deleted { message }) => Ok(TaskUpdateView::Deleted { message: message@ }),
        Ok(TaskUpdate::Saved { task }) => Ok(TaskUpdateView::Saved { task: task@ }),
        Err(e) => Err(e@),
    }
}

/// The ids a list ends up with: the merge when ids were added, else the list.
pub open spec fn ids_after(r: Seq<u64>, before: Seq<u64>, added: Seq<u64>) -> bool {
    if added.len() > 0 {
        is_merge(r, before, added)
    } else {
        r == before
    }
}

/// What an update of the task `task_id` with the (trimmed) status `st` does to
/// the board `ts`, giving the result `r` and the board `after`.
pub open spec fn update_done(
    ts: Seq<TaskRecordView>,
    task_id: u64,
    st: Seq<char>,
    owner: Option<Seq<char>>,
    add_blocked_by: Seq<u64>,
    add_blocks: Seq<u64>,
    now: u64,
    r: Result<TaskUpdateView, TaskErrorView>,
    after: Seq<TaskRecordView>,
) -> bool {
    match task_position(ts, task_id) {
        None => r == Err::<TaskUpdateView, TaskErrorView>(TaskErrorView::NotFound { task_id })
            && after == ts,
        Some(i) => if st.len() > 0 && !known_status(st) {
            r == Err::<TaskUpdateView, TaskErrorView>(TaskErrorView::InvalidStatus { status: st })
                && after == ts
        } else if st == "deleted"@ {
            r == Ok::<TaskUpdateView, TaskErrorView>(
                TaskUpdateView::Deleted {
                    message: "Task "@ + decimal(task_id as nat) + " deleted"@,
                },
            ) && after == ts.remove(i)
        } else {
            let t = ts[i];
            &&& r matches Ok(TaskUpdateView::Saved { task })
            &&& task == (TaskRecordView {
                status: if st.len() > 0 {
                    st
                } else {
                    t.status
                },
                owner: match owner {
                    Some(o) => o,
                    None => t.owner,
                },
                blocked_by: task.blocked_by,
                blocks: task.blocks,
                updated_at: now,
                ..t
            })
            &&& ids_after(task.blocked_by, t.blocked_by, add_blocked_by)
            &&& ids_after(task.blocks, t.blocks, add_blocks)
            &&& after.len() == ts.len()
            &&& after[i] == task
            &&& forall|k: int|
                0 <= k < ts.len() && k != i ==> #[trigger] after[k] == (if st == "completed"@ {
                    (TaskRecordView { blocked_by: without_id(ts[k].blocked_by, task_id), ..ts[k] })
                } else {
                    ts[k]
                })
        },
    }
}

/// What an update did.
#[derive(Debug)]
pub enum TaskUpdate {
    /// The task was removed from the board.
    Deleted { message: String },
    /// The task was changed and saved.
    Saved { task: TaskRecord },
}

/// The shared task board: the tasks in increasing order of id, and the id that
/// the next created task gets.
pub struct TaskService {
    tasks: Vec<TaskRecord>,
    next_id: u64,
}

pub struct TaskBoardView {
    pub tasks: Seq<TaskRecordView>,
    pub next_id: u64,
}

impl View for TaskService {
    type V = TaskBoardView;

    closed spec fn view(&self) -> TaskBoardView {
        TaskBoardView { tasks: record_views(self.tasks@), next_id: self.next_id }
    }
}

#[verifier::spinoff_prover]
#[verifier::rlimit(40)]
proof fn lemma_upsert_sorted(ts: Seq<TaskRecordView>, r: TaskRecordView)
    requires
        ids_increasing(ts),
    ensures
        ids_increasing(upsert(ts, r)),
        upsert(ts, r).len() > 0,
        forall|i: int|
            0 <= i < upsert(ts, r).len() ==> upsert(ts, r)[i] == r || ts.contains(
                #[trigger] upsert(ts, r)[i],
            ),
        upsert(ts, r).contains(r),
        forall|i: int| 0 <= i < ts.len() && ts[i].id != r.id ==> upsert(ts, r).contains(#[trigger] ts[i]),
    decreases ts.len(),
{
    let u = upsert(ts, r);
    if ts.len() == 0 {
        assert(u[0] == r);
    } else if r.id < ts[0].id {
        assert(u[0] == r);
        assert forall|i: int| 0 <= i < ts.len() && ts[i].id != r.id implies u.contains(ts[i]) by {
            assert(u[i + 1] == ts[i]);
        }
        assert forall|i: int| 0 <= i < u.len() implies u[i] == r || ts.contains(u[i]) by {
            if i > 0 {
                assert(u[i] == ts[i - 1]);
            }
        }
    } else if r.id == ts[0].id {
        assert(u[0] == r);
        assert forall|i: int| 0 <= i < ts.len() && ts[i].id != r.id implies u.contains(ts[i]) by {
            if i > 0 {
                assert(u[i] == ts[i]);
            }
        }
        assert forall|i: int| 0 <= i < u.len() implies u[i] == r || ts.contains(u[i]) by {
            if i > 0 {
                assert(u[i] == ts[i]);
            }
        }
    } else {
        let rest = ts.drop_first();
        lemma_upsert_sorted(rest, r);
        let ur = upsert(rest, r);
        assert(u =~= seq![ts[0]] + ur);
        assert forall|a: int, b: int| 0 <= a < b < u.len() implies u[a].id < u[b].id by {
            if a == 0 {
                assert(u[b] == ur[b - 1]);
                if ur[b - 1] != r {
                    let k = choose|k: int| 0 <= k < rest.len() && rest[k] == ur[b - 1];
                    assert(ts[k + 1] == ur[b - 1]);
                }
            } else {
                assert(u[a] == ur[a - 1]);
                assert(u[b] == ur[b - 1]);
            }
        }
        assert forall|i: int| 0 <= i < u.len() implies u[i] == r || ts.contains(u[i]) by {
            if i > 0 {
                assert(u[i] == ur[i - 1]);
                if ur[i - 1] != r {
                    let k = choose|k: int| 0 <= k < rest.len() && rest[k] == ur[i - 1];
                    assert(ts[k + 1] == u[i]);
                }
            } else {
                assert(ts[0] == u[0]);
            }
        }
        let kr = choose|k: int| 0 <= k < ur.len() && ur[k] == r;
        assert(u[kr + 1] == r);
        assert forall|i: int| 0 <= i < ts.len() && ts[i].id != r.id implies u.contains(ts[i]) by {
            if i == 0 {
                assert(u[0] == ts[0]);
            } else {
                assert(rest[i - 1] == ts[i]);
                let k = choose|k: int| 0 <= k < ur.len() && ur[k] == rest[i - 1];
                assert(u[k + 1] == ts[i]);
            }
        }
    }
}

/// Where `upsert` puts `r`, for a board in increasing order: before the first
/// task whose id is not below `r`'s, replacing it when the ids are equal.
proof fn lemma_upsert_at(ts: Seq<TaskRecordView>, r: TaskRecordView, p: int)
    requires
        ids_increasing(ts),
        0 <= p <= ts.len(),
        forall|k: int| 0 <= k < p ==> ts[k].id < r.id,
        p < ts.len() ==> ts[p].id >= r.id,
    ensures
        upsert(ts, r) == if p < ts.len() && ts[p].id == r.id {
            ts.update(p, r)
        } else {
            ts.insert(p, r)
        },
    decreases p,
{
    if p == 0 {
        if ts.len() == 0 {
            assert(ts.insert(0, r) =~= seq![r]);
        } else if r.id < ts[0].id {
            assert(ts.insert(0, r) =~= seq![r] + ts);
        } else {
            assert(ts.update(0, r) =~= seq![r] + ts.drop_first());
        }
    } else {
        let rest = ts.drop_first();
        assert(ts[0].id < r.id);
        lemma_upsert_at(rest, r, p - 1);
        if p < ts.len() && ts[p].id == r.id {
            assert(ts.update(p, r) =~= seq![ts[0]] + rest.update(p - 1, r));
        } else {
            assert(ts.insert(p, r) =~= seq![ts[0]] + rest.insert(p - 1, r));
        }
    }
}

impl TaskService {
    pub closed spec fn wf(self) -> bool {
        ids_increasing(self@.tasks)
    }

    /// The position of the first task whose id is not below `id`.
    fn lower_bound(&self, id: u64) -> (p: usize)
        requires
            self.wf(),
        ensures
            p <= self@.tasks.len(),
            forall|k: int| 0 <= k < p ==> self@.tasks[k].id < id,
            p < self@.tasks.len() ==> self@.tasks[p as int].id >= id,
    {
        let ghost ts = self@.tasks;
        let mut i: usize = 0;
        while i < self.tasks.len() && self.tasks[i].id < id
            invariant
                0 <= i <= self.tasks.len(),
                ts == self@.tasks,
                ts.len() == self.tasks.len(),
                forall|k: int| 0 <= k < i ==> ts[k].id < id,
            decreases self.tasks.len() - i,
        {
            assert(ts[i as int] == self.tasks@[i as int]@);
            i += 1;
        }
        if i < self.tasks.len() {
            assert(ts[i as int] == self.tasks@[i as int]@);
        }
        i
    }

    fn find(&self, id: u64) -> (r: Option<usize>)
        requires
            self.wf(),
        ensures
            match r {
                Some(i) => task_position(self@.tasks, id) == Some(i as int) && i
                    < self@.tasks.len(),
                None => task_position(self@.tasks, id) is None,
            },
    {
        let ghost ts = self@.tasks;
        let p = self.lower_bound(id);
        if p < self.tasks.len() && self.tasks[p].id == id {
            assert(ts[p as int] == self.tasks@[p as int]@);
            let ghost c = choose|k: int| 0 <= k < ts.len() && ts[k].id == id;
            assert(c == p) by {
                if c < p {
                } else if c > p {
                    assert(ts[p as int].id < ts[c].id);
                }
            }
            Some(p)
        } else {
            proof {
                if exists|k: int| 0 <= k < ts.len() && ts[k].id == id {
                    let c = choose|k: int| 0 <= k < ts.len() && ts[k].id == id;
                    if c > p {
                        assert(ts[p as int].id < ts[c].id);
                    }
                    if p < ts.len() {
                        assert(ts[p as int] == self.tasks@[p as int]@);
                    }
                }
            }
            None
        }
    }

    fn put(&mut self, r: TaskRecord)
        requires
            old(self).wf(),
        ensures
            final(self).wf(),
            final(self)@.tasks == upsert(old(self)@.tasks, r@),
            final(self)@.next_id == old(self)@.next_id,
    {
        let ghost ts = self@.tasks;
        let ghost rv = r@;
        let p = self.lower_bound(r.id);
        proof {
            lemma_upsert_at(ts, rv, p as int);
            lemma_upsert_sorted(ts, rv);
            if p < ts.len() {
                assert(ts[p as int] == self.tasks@[p as int]@);
            }
        }
        if p < self.tasks.len() && self.tasks[p].id == r.id {
            self.tasks.set(p, r);
            assert(self@.tasks =~= ts.update(p as int, rv));
        } else {
            self.tasks.insert(p, r);
            assert(self@.tasks =~= ts.insert(p as int, rv));
        }
    }

    /// The board of the given records (a later record replacing an earlier one
    /// with the same id); new tasks get ids after the greatest id.
    pub fn new(records: Vec<TaskRecord>) -> (s: Self)
        ensures
            s.wf(),
            s@.tasks == board_of(record_views(records@)),
            s@.next_id == if max_id(record_views(records@)) == u64::MAX {
                u64::MAX
            } else {
                (max_id(record_views(records@)) + 1) as u64
            },
    {
        let ghost rs = record_views(records@);
        let mut s = TaskService { tasks: Vec::new(), next_id: 0 };
        let mut m: u64 = 0;
        let mut i: usize = 0;
        assert(rs.take(0) =~= Seq::<TaskRecordView>::empty());
        assert(record_views(s.tasks@) =~= Seq::<TaskRecordView>::empty());
        while i < records.len()
            invariant
                0 <= i <= records.len(),
                rs == record_views(records@),
                s.wf(),
                s@.tasks == board_of(rs.take(i as int)),
                m == max_id(rs.take(i as int)),
            decreases records.len() - i,
        {
            assert(rs.take(i + 1).drop_last() =~= rs.take(i as int));
            assert(rs.take(i + 1).last() == records@[i as int]@);
            let r = records[i].clone();
            if r.id > m {
                m = r.id;
            }
            s.put(r);
            i += 1;
        }
        assert(rs.take(records.len() as int) =~= rs);
        s.next_id = if m == u64::MAX {
            u64::MAX
        } else {
            m + 1
        };
        s
    }

    /// The id that the next created task gets.
    pub fn next_task_id(&self) -> (n: u64)
        ensures
            n == self@.next_id,
    {
        self.next_id
    }

    /// The tasks, in increasing order of id.
    pub fn records(&self) -> (v: Vec<TaskRecord>)
        ensures
            record_views(v@) == self@.tasks,
    {
        let mut v: Vec<TaskRecord> = Vec::new();
        let mut i: usize = 0;
        while i < self.tasks.len()
            invariant
                0 <= i <= self.tasks.len(),
                v@.len() == i,
                record_views(v@) == record_views(self.tasks@).take(i as int),
            decreases self.tasks.len() - i,
        {
            let c = self.tasks[i].clone();
            let ghost before = v@;
            v.push(c);
            assert(v@ == before.push(c));
            assert(record_views(v@) =~= record_views(self.tasks@).take(i + 1)) by {
                assert(record_views(before) =~= record_views(self.tasks@).take(i as int));
                assert forall|k: int| 0 <= k < i + 1 implies #[trigger] record_views(v@)[k]
                    == record_views(self.tasks@)[k] by {
                    assert(record_views(v@)[k] == v@[k]@);
                    assert(record_views(self.tasks@)[k] == self.tasks@[k]@);
                    if k < i {
                        assert(v@[k] == before[k]);
                        assert(record_views(before)[k] == before[k]@);
                        assert(record_views(self.tasks@).take(i as int)[k] == record_views(self.tasks@)[k]);
                    } else {
                        assert(v@[k] == c);
                    }
                }
            }
            i += 1;
        }
        assert(record_views(self.tasks@).take(self.tasks.len() as int) =~= record_views(
            self.tasks@,
        ));
        v
    }

    /// Adds a pending task with the trimmed subject under the next id.
    pub fn create(&mut self, subject: &str, description: &str, now: u64) -> (r: Result<
        TaskRecord,
        TaskError,
    >)
        requires
            old(self).wf(),
            old(self)@.next_id < u64::MAX,
        ensures
            final(self).wf(),
            final(self)@.next_id == old(self)@.next_id + ids_used(seq![subject@]),
            trim_seq(subject@).len() == 0 ==> (r matches Err(e) && e@ == (TaskErrorView::SubjectEmpty)
                && final(self)@ == old(self)@),
            trim_seq(subject@).len() > 0 ==> (r matches Ok(t) && {
                let tv = (TaskRecordView {
                    id: old(self)@.next_id,
                    subject: trim_seq(subject@),
                    description: description@,
                    status: "pending"@,
                    owner: Seq::empty(),
                    worktree: Seq::empty(),
                    blocked_by: Seq::empty(),
                    blocks: Seq::empty(),
                    created_at: now,
                    updated_at: now,
                });
                &&& t@ == tv
                &&& final(self)@.tasks == upsert(old(self)@.tasks, tv)
                &&& final(self)@.next_id == old(self)@.next_id + 1
            }),
    {
        proof {
            let one = seq![subject@];
            assert(one.drop_last() =~= Seq::<Seq<char>>::empty());
            assert(one.last() == subject@);
            assert(ids_used(one.drop_last()) == 0);
            assert(ids_used(one) == if trim_seq(subject@).len() > 0 {
                1nat
            } else {
                0nat
            });
        }
        let subject = trim(subject);
        if is_empty_text(subject.as_str()) {
            return Err(TaskError::SubjectEmpty);
        }
        let task = TaskRecord {
            id: self.next_id,
            subject,
            description: owned(description),
            status: owned("pending"),
            owner: String::new(),
            worktree: String::new(),
            blocked_by: Vec::new(),
            blocks: Vec::new(),
            created_at: now,
            updated_at: now,
        };
        let copy = task.clone();
        self.put(task);
        self.next_id = self.next_id + 1;
        Ok(copy)
    }

    /// The task with the id.
    pub fn get(&self, task_id: u64) -> (r: Result<TaskRecord, TaskError>)
        requires
            self.wf(),
        ensures
            match task_position(self@.tasks, task_id) {
                Some(i) => r matches Ok(t) && t@ == self@.tasks[i],
                None => r matches Err(e) && e@ == (TaskErrorView::NotFound { task_id }),
            },
    {
        match self.find(task_id) {
            Some(i) => {
                assert(self@.tasks[i as int] == self.tasks@[i as int]@);
                Ok(self.tasks[i].clone())
            },
            None => Err(TaskError::NotFound { task_id }),
        }
    }

    /// Whether a task with the id is on the board.
    pub fn task_exists(&self, task_id: u64) -> (b: bool)
        requires
            self.wf(),
        ensures
            b == task_position(self@.tasks, task_id) is Some,
    {
        self.find(task_id).is_some()
    }

    fn replace_at(&mut self, i: usize, t: TaskRecord)
        requires
            old(self).wf(),
            i < old(self)@.tasks.len(),
            t@.id == old(self)@.tasks[i as int].id,
        ensures
            final(self).wf(),
            final(self)@.tasks == old(self)@.tasks.update(i as int, t@),
            final(self)@.next_id == old(self)@.next_id,
    {
        let ghost ts = self@.tasks;
        self.tasks.set(i, t);
        assert(self@.tasks =~= ts.update(i as int, t@));
        assert forall|a: int, b: int| 0 <= a < b < self@.tasks.len() implies self@.tasks[a].id
            < self@.tasks[b].id by {
            assert(ts[a].id < ts[b].id);
        }
    }

    /// Gives the task to `owner` and marks it in progress.
    pub fn claim(&mut self, task_id: u64, owner: &str, now: u64) -> (r: Result<String, TaskError>)
        requires
            old(self).wf(),
        ensures
            final(self).wf(),
            final(self)@.next_id == old(self)@.next_id,
            match task_position(old(self)@.tasks, task_id) {
                Some(i) => r matches Ok(m) && m@ == "Claimed task #"@ + decimal(task_id as nat)
                    + " for "@ + owner@ && final(self)@.tasks == old(self)@.tasks.update(
                    i,
                    (TaskRecordView {
                        owner: owner@,
                        status: "in_progress"@,
                        updated_at: now,
                        ..old(self)@.tasks[i]
                    }),
                ),
                None => r matches Err(e) && e@ == (TaskErrorView::NotFound { task_id })
                    && final(self)@ == old(self)@,
            },
    {
        match self.find(task_id) {
            Some(i) => {
                let mut t = self.tasks[i].clone();
                t.owner = owned(owner);
                t.status = owned("in_progress");
                t.updated_at = now;
                self.replace_at(i, t);
                let mut m = concat2("Claimed task #", u64_to_decimal(task_id).as_str());
                push_str(&mut m, " for ");
                push_str(&mut m, owner);
                Ok(m)
            },
            None => Err(TaskError::NotFound { task_id }),
        }
    }

    /// Binds the task to a worktree (and an owner, when one is given); a
    /// pending task goes in progress.
    pub fn bind_worktree(&mut self, task_id: u64, worktree: &str, owner: Option<&str>, now: u64) -> (r:
        Result<TaskRecord, TaskError>)
        requires
            old(self).wf(),
        ensures
            final(self).wf(),
            final(self)@.next_id == old(self)@.next_id,
            match task_position(old(self)@.tasks, task_id) {
                Some(i) => {
                    let t = old(self)@.tasks[i];
                    let nt = (TaskRecordView {
                        worktree: worktree@,
                        owner: match owner {
                            Some(o) => o@,
                            None => t.owner,
                        },
                        status: if t.status == "pending"@ {
                            "in_progress"@
                        } else {
                            t.status
                        },
                        updated_at: now,
                        ..t
                    });
                    r matches Ok(rt) && rt@ == nt && final(self)@.tasks == old(self)@.tasks.update(
                        i,
                        nt,
                    )
                },
                None => r matches Err(e) && e@ == (TaskErrorView::NotFound { task_id })
                    && final(self)@ == old(self)@,
            },
    {
        match self.find(task_id) {
            Some(i) => {
                let mut t = self.tasks[i].clone();
                t.worktree = owned(worktree);
                match owner {
                    Some(o) => {
                        t.owner = owned(o);
                    },
                    None => {},
                }
                if str_eq(t.status.as_str(), "pending") {
                    t.status = owned("in_progress");
                }
                t.updated_at = now;
                let copy = t.clone();
                self.replace_at(i, t);
                Ok(copy)
            },
            None => Err(TaskError::NotFound { task_id }),
        }
    }

    /// Removes the task's worktree binding.
    pub fn unbind_worktree(&mut self, task_id: u64, now: u64) -> (r: Result<TaskRecord, TaskError>)
        requires
            old(self).wf(),
        ensures
            final(self).wf(),
            final(self)@.next_id == old(self)@.next_id,
            match task_position(old(self)@.tasks, task_id) {
                Some(i) => {
                    let nt = (TaskRecordView {
                        worktree: Seq::empty(),
                        updated_at: now,
                        ..old(self)@.tasks[i]
                    });
                    r matches Ok(rt) && rt@ == nt && final(self)@.tasks == old(self)@.tasks.update(
                        i,
                        nt,
                    )
                },
                None => r matches Err(e) && e@ == (TaskErrorView::NotFound { task_id })
                    && final(self)@ == old(self)@,
            },
    {
        match self.find(task_id) {
            Some(i) => {
                let mut t = self.tasks[i].clone();
                t.worktree = String::new();
                t.updated_at = now;
                let copy = t.clone();
                self.replace_at(i, t);
                Ok(copy)
            },
            None => Err(TaskError::NotFound { task_id }),
        }
    }

    /// The board as text, one line per task, or `No tasks.`.
    pub fn list_all(&self) -> (s: String)
        ensures
            s@ == if self@.tasks.len() == 0 {
                "No tasks."@
            } else {
                task_lines(self@.tasks)
            },
    {
        if self.tasks.len() == 0 {
            return owned("No tasks.");
        }
        let ghost ts = self@.tasks;
        let mut s = String::new();
        let mut i: usize = 0;
        assert(ts.take(0) =~= Seq::<TaskRecordView>::empty());
        while i < self.tasks.len()
            invariant
                0 <= i <= self.tasks.len(),
                ts == self@.tasks,
                ts.len() == self.tasks.len(),
                s@ == task_lines(ts.take(i as int)),
            decreases self.tasks.len() - i,
        {
            let t = &self.tasks[i];
            assert(ts[i as int] == t@);
            assert(ts.take(i + 1).drop_last() =~= ts.take(i as int));
            assert(ts.take(i + 1).last() == t@);
            if i > 0 {
                push_str(&mut s, "\n");
            } else {
                assert(ts.take(1) =~= seq![t@]);
            }
            let line = render_task_line(t);
            push_str(&mut s, line.as_str());
            i += 1;
        }
        assert(ts.take(self.tasks.len() as int) =~= ts);
        s
    }

    /// The first task, in order of id, that a teammate may take.
    pub fn find_claimable_task(&self) -> (r: Option<TaskRecord>)
        ensures
            match r {
                Some(t) => exists|i: int|
                    0 <= i < self@.tasks.len() && self@.tasks[i] == t@ && claimable(t@) && forall|
                        k: int,
                    |
                        0 <= k < i ==> !claimable(#[trigger] self@.tasks[k]),
                None => forall|k: int|
                    0 <= k < self@.tasks.len() ==> !claimable(#[trigger] self@.tasks[k]),
            },
            match r {
                Some(t) => t@.status == "pending"@ && t@.owner.len() == 0 && t@.blocked_by.len()
                    == 0 && exists|i: int|
                    0 <= i < self@.tasks.len() && self@.tasks[i] == t@ && forall|k: int|
                        0 <= k < i ==> !(#[trigger] self@.tasks[k].status == "pending"@
                            && self@.tasks[k].owner.len() == 0 && self@.tasks[k].blocked_by.len()
                            == 0),
                None => forall|k: int|
                    0 <= k < self@.tasks.len() ==> !(#[trigger] self@.tasks[k].status == "pending"@
                        && self@.tasks[k].owner.len() == 0 && self@.tasks[k].blocked_by.len() == 0),
            },
            forall|k: int|
                0 <= k < self@.tasks.len() && self@.tasks[k].owner.len() > 0 ==> !(r matches Some(t)
                    && t@ == #[trigger] self@.tasks[k]),
    {
        let ghost ts = self@.tasks;
        let mut i: usize = 0;
        while i < self.tasks.len()
            invariant
                0 <= i <= self.tasks.len(),
                ts == self@.tasks,
                ts.len() == self.tasks.len(),
                forall|k: int| 0 <= k < i ==> !claimable(#[trigger] ts[k]),
            decreases self.tasks.len() - i,
        {
            let t = &self.tasks[i];
            assert(ts[i as int] == t@);
            if str_eq(t.status.as_str(), "pending") && is_empty_text(t.owner.as_str())
                && t.blocked_by.len() == 0 {
                return Some(t.clone());
            }
            i += 1;
        }
        None
    }

    /// Changes a task: a status (trimmed; blank means none) among pending,
    /// in_progress, completed and deleted, where deleted removes the task and
    /// completed unblocks the tasks waiting on it; an owner; ids to add to
    /// what blocks the task and to what it blocks.
    pub fn update(
        &mut self,
        task_id: u64,
        status: Option<&str>,
        owner: Option<&str>,
        add_blocked_by: &Vec<u64>,
        add_blocks: &Vec<u64>,
        now: u64,
    ) -> (r: Result<TaskUpdate, TaskError>)
        requires
            old(self).wf(),
        ensures
            final(self).wf(),
            final(self)@.next_id == old(self)@.next_id,
            update_done(
                old(self)@.tasks,
                task_id,
                match status {
                    Some(s) => trim_seq(s@),
                    None => Seq::empty(),
                },
                match owner {
                    Some(o) => Some(o@),
                    None => None,
                },
                add_blocked_by@,
                add_blocks@,
                now,
                update_view(r),
                final(self)@.tasks,
            ),
    {
        proof {
            reveal_strlit("pending");
            reveal_strlit("in_progress");
            reveal_strlit("completed");
            reveal_strlit("deleted");
        }
        let i = match self.find(task_id) {
            Some(i) => i,
            None => {
                return Err(TaskError::NotFound { task_id });
            },
        };
        let ghost ts = self@.tasks;
        let st = match status {
            Some(s) => trim(s),
            None => String::new(),
        };
        let mut t = self.tasks[i].clone();
        assert(t@ == ts[i as int]);
        if !is_empty_text(st.as_str()) {
            let known = str_eq(st.as_str(), "pending") || str_eq(st.as_str(), "in_progress")
                || str_eq(st.as_str(), "completed") || str_eq(st.as_str(), "deleted");
            if !known {
                return Err(TaskError::InvalidStatus { status: st });
            }
            if str_eq(st.as_str(), "deleted") {
                self.tasks.remove(i);
                proof {
                    assert(self@.tasks =~= ts.remove(i as int));
                    assert forall|a: int, b: int| 0 <= a < b < self@.tasks.len() implies self@.tasks[a].id
                        < self@.tasks[b].id by {
                        if a < i && b < i {
                            assert(ts[a].id < ts[b].id);
                        } else if a < i {
                            assert(ts[a].id < ts[b + 1].id);
                        } else {
                            assert(ts[a + 1].id < ts[b + 1].id);
                        }
                    }
                }
                let mut m = concat2("Task ", u64_to_decimal(task_id).as_str());
                push_str(&mut m, " deleted");
                return Ok(TaskUpdate::Deleted { message: m });
            }
            t.status = owned(st.as_str());
            if str_eq(st.as_str(), "completed") {
                self.unblock_others(i, task_id);
            }
        }
        match owner {
            Some(o) => {
                t.owner = owned(o);
            },
            None => {},
        }
        if add_blocked_by.len() > 0 {
            t.blocked_by = merge_ids(&t.blocked_by, add_blocked_by);
        }
        if add_blocks.len() > 0 {
            t.blocks = merge_ids(&t.blocks, add_blocks);
        }
        t.updated_at = now;
        let copy = t.clone();
        assert(t@.id == self@.tasks[i as int].id);
        self.replace_at(i, t);
        Ok(TaskUpdate::Saved { task: copy })
    }

    /// Removes `task_id` from what blocks each task but the one at `skip`.
    fn unblock_others(&mut self, skip: usize, task_id: u64)
        requires
            old(self).wf(),
            skip < old(self)@.tasks.len(),
        ensures
            final(self).wf(),
            final(self)@.next_id == old(self)@.next_id,
            final(self)@.tasks.len() == old(self)@.tasks.len(),
            final(self)@.tasks[skip as int] == old(self)@.tasks[skip as int],
            forall|k: int|
                0 <= k < old(self)@.tasks.len() && k != skip ==> #[trigger] final(self)@.tasks[k]
                    == (TaskRecordView {
                    blocked_by: without_id(old(self)@.tasks[k].blocked_by, task_id),
                    ..old(self)@.tasks[k]
                }),
    {
        let ghost ts = self@.tasks;
        let mut j: usize = 0;
        while j < self.tasks.len()
            invariant
                0 <= j <= ts.len(),
                self@.tasks.len() == ts.len(),
                self.tasks.len() == ts.len(),
                skip < ts.len(),
                self.wf(),
                self@.next_id == old(self)@.next_id,
                ts == old(self)@.tasks,
                forall|k: int|
                    0 <= k < ts.len() && (k >= j || k == skip) ==> #[trigger] self@.tasks[k]
                        == ts[k],
                forall|k: int|
                    0 <= k < j && k != skip ==> #[trigger] self@.tasks[k] == (TaskRecordView {
                        blocked_by: without_id(ts[k].blocked_by, task_id),
                        ..ts[k]
                    }),
            decreases self.tasks.len() - j,
        {
            if j != skip {
                let mut t = self.tasks[j].clone();
                assert(t@ == self@.tasks[j as int]);
                t.blocked_by = remove_id(&t.blocked_by, task_id);
                self.replace_at(j, t);
                assert(self@.tasks.len() == self.tasks@.len());
            }
            j += 1;
        }
    }
}

fn render_task_line(t: &TaskRecord) -> (s: String)
    ensures
        s@ == task_line(t@),
{
    let mut s = if str_eq(t.status.as_str(), "pending") {
        owned("[ ]")
    } else if str_eq(t.status.as_str(), "in_progress") {
        owned("[>]")
    } else if str_eq(t.status.as_str(), "completed") {
        owned("[x]")
    } else {
        owned("[?]")
    };
    push_str(&mut s, " #");
    push_str(&mut s, u64_to_decimal(t.id).as_str());
    push_str(&mut s, ": ");
    push_str(&mut s, t.subject.as_str());
    if !is_empty_text(t.owner.as_str()) {
        push_str(&mut s, " owner=");
        push_str(&mut s, t.owner.as_str());
    }
    if !is_empty_text(t.worktree.as_str()) {
        push_str(&mut s, " wt=");
        push_str(&mut s, t.worktree.as_str());
    }
    s
}

} // verus!

verus! {

/// The name and description of each task-board tool, in order.
pub open spec fn task_tool_entries() -> Seq<(Seq<char>, Seq<char>)> {
    seq![
        ("task_create"@, "Create a new task on the shared task board."@),
        ("task_list"@, "List all tasks with status, owner, and worktree binding."@),
        ("task_get"@, "Get task details by ID."@),
        ("task_update"@, "Update task status, owner, or dependencies."@),
        ("task_bind_worktree"@, "Bind a task to a worktree name."@),
    ]
}

/// The parameters of the task-board tools, in order: name, schema text, whether required.
pub open spec fn task_tool_parameters() -> Seq<Seq<(Seq<char>, Seq<char>, bool)>> {
    seq![
        seq![("subject"@, r#"{"type":"string"}"#@, true), ("description"@, r#"{"type":"string"}"#@, false)],
        Seq::empty(),
        seq![("task_id"@, r#"{"type":"integer"}"#@, true)],
        seq![("task_id"@, r#"{"type":"integer"}"#@, true), ("status"@, r#"{"type":"string","enum":["pending","in_progress","completed","deleted"]}"#@, false), ("owner"@, r#"{"type":"string"}"#@, false), ("add_blocked_by"@, r#"{"type":"array","items":{"type":"integer"}}"#@, false), ("add_blocks"@, r#"{"type":"array","items":{"type":"integer"}}"#@, false)],
        seq![("task_id"@, r#"{"type":"integer"}"#@, true), ("worktree"@, r#"{"type":"string"}"#@, true), ("owner"@, r#"{"type":"string"}"#@, false)],
    ]
}

/// The task-board tools: create, list, get, update and bind to a worktree.
pub fn public_task_tool_schemas() -> (r: Vec<ToolSchema>)
    ensures
        schema_entries_of(r@) == task_tool_entries(),
        schema_parameters(r@) == task_tool_parameters(),
{
    let mut r: Vec<ToolSchema> = Vec::new();
    r.push(tool_schema(
        "task_create",
        "Create a new task on the shared task board.",
        vec![
            tool_parameter("subject", r#"{"type":"string"}"#, true),
            tool_parameter("description", r#"{"type":"string"}"#, false),
        ],
    ));
    r.push(tool_schema(
        "task_list",
        "List all tasks with status, owner, and worktree binding.",
        Vec::new(),
    ));
    r.push(tool_schema(
        "task_get",
        "Get task details by ID.",
        vec![tool_parameter("task_id", r#"{"type":"integer"}"#, true)],
    ));
    r.push(tool_schema(
        "task_update",
        "Update task status, owner, or dependencies.",
        vec![
            tool_parameter("task_id", r#"{"type":"integer"}"#, true),
            tool_parameter(
                "status",
                r#"{"type":"string","enum":["pending","in_progress","completed","deleted"]}"#,
                false,
            ),
            tool_parameter("owner", r#"{"type":"string"}"#, false),
            tool_parameter("add_blocked_by", r#"{"type":"array","items":{"type":"integer"}}"#, false),
            tool_parameter("add_blocks", r#"{"type":"array","items":{"type":"integer"}}"#, false),
        ],
    ));
    r.push(tool_schema(
        "task_bind_worktree",
        "Bind a task to a worktree name.",
        vec![
            tool_parameter("task_id", r#"{"type":"integer"}"#, true),
            tool_parameter("worktree", r#"{"type":"string"}"#, true),
            tool_parameter("owner", r#"{"type":"string"}"#, false),
        ],
    ));
    assert(schema_parameters(r@) =~~= task_tool_parameters());
    assert(schema_entries_of(r@) =~= task_tool_entries());
    r
}

} // verus!

verus! {

// ---------------------------------------------------------------------------
// Reading the arguments of a task-board tool call
// ---------------------------------------------------------------------------

/// A task-board tool call with its arguments read; `Reply` holds the answer
/// to a call whose arguments do not do.
#[derive(Debug, Clone, PartialEq, Eq)]
pub enum TaskToolCall {
    Create { subject: String, description: String },
    List,
    Get { task_id: u64 },
    Update {
        task_id: u64,
        status: Option<String>,
        owner: Option<String>,
        add_blocked_by: Vec<u64>,
        add_blocks: Vec<u64>,
    },
    BindWorktree { task_id: u64, worktree: String, owner: Option<String> },
    Reply(String),
}

/// The answer to a call that lacks a non-blank string argument.
pub open spec fn missing_text(tool: Seq<char>, key: Seq<char>) -> Seq<char> {
    "Error: "@ + tool + " requires a non-empty "@ + key
}

/// The answer to a call that lacks an integer argument.
pub open spec fn missing_integer(tool: Seq<char>, key: Seq<char>) -> Seq<char> {
    "Error: "@ + tool + " requires integer "@ + key
}

/// A list of task ids under `key`: none when absent; an error when it is no
/// array or holds something other than an unsigned integer.
pub open spec fn id_list_argument(items: Option<Option<Seq<Option<u64>>>>, key: Seq<char>) -> Result<
    Seq<u64>,
    Seq<char>,
> {
    match items {
        None => Ok(Seq::empty()),
        Some(None) => Err("Error: "@ + key + " must be an array"@),
        Some(Some(xs)) => if forall|i: int| 0 <= i < xs.len() ==> (#[trigger] xs[i]) is Some {
            Ok(xs.map_values(|x: Option<u64>| x->0))
        } else {
            Err("Error: "@ + key + " items must be integers"@)
        },
    }
}


fn error_text(tool: &str, middle: &str, key: &str) -> (r: String)
    ensures
        r@ == "Error: "@ + tool@ + middle@ + key@,
{
    let mut r = owned("Error: ");
    push_str(&mut r, tool);
    push_str(&mut r, middle);
    push_str(&mut r, key);
    r
}

fn id_list_arg(arguments: &str, key: &str) -> (r: Result<Vec<u64>, String>)
    ensures
        match id_list_argument(json_u64_items(arguments@, key@), key@) {
            Ok(ids) => r matches Ok(v) && v@ == ids,
            Err(e) => r matches Err(t) && t@ == e,
        },
{
    match json_u64_items_at(arguments, key) {
        None => Ok(Vec::new()),
        Some(None) => {
            let mut t = concat2("Error: ", key);
            push_str(&mut t, " must be an array");
            assert(t@ =~= "Error: "@ + key@ + " must be an array"@);
            Err(t)
        },
        Some(Some(items)) => {
            let mut ids: Vec<u64> = Vec::new();
            let mut i: usize = 0;
            while i < items.len()
                invariant
                    0 <= i <= items.len(),
                    json_u64_items(arguments@, key@) == Some(Some(items@)),
                    ids@.len() == i,
                    forall|j: int| 0 <= j < i ==> (#[trigger] items@[j]) is Some,
                    forall|j: int| 0 <= j < i ==> ids@[j] == items@[j]->0,
                decreases items.len() - i,
            {
                match items[i] {
                    Some(id) => ids.push(id),
                    None => {
                        assert(items@[i as int] is None);
                        assert(!(forall|j: int| 0 <= j < items@.len() ==> (#[trigger] items@[j]) is Some));

                        let mut t = concat2("Error: ", key);
                        push_str(&mut t, " items must be integers");
                        assert(t@ =~= "Error: "@ + key@ + " items must be integers"@);
                        return Err(t);
                    },
                }
                i += 1;
            }
            assert(ids@ =~= items@.map_values(|x: Option<u64>| x->0));
            Ok(ids)
        },
    }
}

/// Reads a task-board tool call; `None` for a name that is not one of the
/// task-board tools.
pub fn task_tool_call(name: &str, arguments: &str) -> (r: Option<TaskToolCall>)
    ensures
        name@ == "task_create"@ ==> match nonblank_argument(arguments@, "subject"@) {
            Some(subject) => (r matches Some(TaskToolCall::Create { subject: s, description: d })
                && s@ == subject && d@ == match json_string_field(arguments@, "description"@) {
                Some(d) => d,
                None => Seq::empty(),
            }),
            None => (r matches Some(TaskToolCall::Reply(t)) && t@ == missing_text(
                "task_create"@,
                "subject"@,
            )),
        },
        name@ == "task_list"@ ==> r == Some(TaskToolCall::List),
        name@ == "task_get"@ ==> match json_u64_field(arguments@, "task_id"@) {
            Some(id) => r == Some(TaskToolCall::Get { task_id: id }),
            None => (r matches Some(TaskToolCall::Reply(t)) && t@ == missing_integer(
                "task_get"@,
                "task_id"@,
            )),
        },
        name@ == "task_update"@ ==> match json_u64_field(arguments@, "task_id"@) {
            Some(id) => match id_list_argument(
                json_u64_items(arguments@, "add_blocked_by"@),
                "add_blocked_by"@,
            ) {
                Err(e) => (r matches Some(TaskToolCall::Reply(t)) && t@ == e),
                Ok(blocked_by) => match id_list_argument(
                    json_u64_items(arguments@, "add_blocks"@),
                    "add_blocks"@,
                ) {
                    Err(e) => (r matches Some(TaskToolCall::Reply(t)) && t@ == e),
                    Ok(blocks) => (r matches Some(
                        TaskToolCall::Update { task_id, status, owner, add_blocked_by, add_blocks },
                    ) && task_id == id && opt_view(status) == nonblank_argument(
                        arguments@,
                        "status"@,
                    ) && opt_view(owner) == json_string_field(arguments@, "owner"@)
                        && add_blocked_by@ == blocked_by && add_blocks@ == blocks),
                },
            },
            None => (r matches Some(TaskToolCall::Reply(t)) && t@ == missing_integer(
                "task_update"@,
                "task_id"@,
            )),
        },
        name@ == "task_bind_worktree"@ ==> match json_u64_field(arguments@, "task_id"@) {
            Some(id) => match nonblank_argument(arguments@, "worktree"@) {
                Some(w) => (r matches Some(
                    TaskToolCall::BindWorktree { task_id, worktree, owner },
                ) && task_id == id && worktree@ == w && opt_view(owner) == json_string_field(
                    arguments@,
                    "owner"@,
                )),
                None => (r matches Some(TaskToolCall::Reply(t)) && t@ == missing_text(
                    "task_bind_worktree"@,
                    "worktree"@,
                )),
            },
            None => (r matches Some(TaskToolCall::Reply(t)) && t@ == missing_integer(
                "task_bind_worktree"@,
                "task_id"@,
            )),
        },
        name@ != "task_create"@ && name@ != "task_list"@ && name@ != "task_get"@ && name@
            != "task_update"@ && name@ != "task_bind_worktree"@ ==> r is None,
{
    proof {
        reveal_strlit("task_create");
        reveal_strlit("task_list");
        reveal_strlit("task_get");
        reveal_strlit("task_update");
        reveal_strlit("task_bind_worktree");
        assert("task_create"@.len() == 11 && "task_update"@.len() == 11);
        assert("task_list"@.len() == 9 && "task_get"@.len() == 8);
        assert("task_bind_worktree"@.len() == 18);
        assert("task_create"@[5] != "task_update"@[5]);
    }
    if str_eq(name, "task_create") {
        let call = match nonblank_arg(arguments, "subject") {
            Some(subject) => {
                let description = match json_str_field(arguments, "description") {
                    Some(d) => d,
                    None => String::new(),
                };
                TaskToolCall::Create { subject, description }
            },
            None => TaskToolCall::Reply(error_text("task_create", " requires a non-empty ", "subject")),
        };
        Some(call)
    } else if str_eq(name, "task_list") {
        Some(TaskToolCall::List)
    } else if str_eq(name, "task_get") {
        let call = match json_u64_at(arguments, "task_id") {
            Some(task_id) => TaskToolCall::Get { task_id },
            None => TaskToolCall::Reply(error_text("task_get", " requires integer ", "task_id")),
        };
        Some(call)
    } else if str_eq(name, "task_update") {
        let task_id = match json_u64_at(arguments, "task_id") {
            Some(id) => id,
            None => {
                return Some(
                    TaskToolCall::Reply(error_text("task_update", " requires integer ", "task_id")),
                );
            },
        };
        let status = nonblank_arg(arguments, "status");
        let owner = json_str_field(arguments, "owner");
        let add_blocked_by = match id_list_arg(arguments, "add_blocked_by") {
            Ok(v) => v,
            Err(e) => {
                return Some(TaskToolCall::Reply(e));
            },
        };
        let add_blocks = match id_list_arg(arguments, "add_blocks") {
            Ok(v) => v,
            Err(e) => {
                return Some(TaskToolCall::Reply(e));
            },
        };
        Some(TaskToolCall::Update { task_id, status, owner, add_blocked_by, add_blocks })
    } else if str_eq(name, "task_bind_worktree") {
        let task_id = match json_u64_at(arguments, "task_id") {
            Some(id) => id,
            None => {
                return Some(
                    TaskToolCall::Reply(
                        error_text("task_bind_worktree", " requires integer ", "task_id"),
                    ),
                );
            },
        };
        let call = match nonblank_arg(arguments, "worktree") {
            Some(worktree) => {
                let owner = json_str_field(arguments, "owner");
                TaskToolCall::BindWorktree { task_id, worktree, owner }
            },
            None => TaskToolCall::Reply(
                error_text("task_bind_worktree", " requires a non-empty ", "worktree"),
            ),
        };
        Some(call)
    } else {
        None
    }
}

} // verus!
