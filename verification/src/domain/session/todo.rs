use vstd::prelude::*;

use crate::text::{
    concat2, concat3, decimal, is_empty_text, lower_seq, owned, push_str, str_eq, trim, trim_lower,
    trim_seq, usize_to_decimal,
};

verus! {

/// The most todo items that one list may hold.
pub const MAX_TODOS: usize = 20;

/// One entry of an agent's todo list.
#[derive(Debug)]
pub struct TodoItem {
    pub content: String,
    pub status: String,
    pub active_form: String,
}

pub struct TodoItemView {
    pub content: Seq<char>,
    pub status: Seq<char>,
    pub active_form: Seq<char>,
}

impl View for TodoItem {
    type V = TodoItemView;

    open spec fn view(&self) -> TodoItemView {
        TodoItemView { content: self.content@, status: self.status@, active_form: self.active_form@ }
    }
}

impl Clone for TodoItem {
    fn clone(&self) -> (r: Self)
        ensures
            r == *self,
    {
        TodoItem {
            content: self.content.clone(),
            status: self.status.clone(),
            active_form: self.active_form.clone(),
        }
    }
}

/// Why a todo list was refused.
#[derive(Debug, Clone, PartialEq, Eq)]
pub enum TodoError {
    TooMany,
    ContentRequired { index: usize },
    InvalidStatus { index: usize, status: String },
    ActiveFormRequired { index: usize },
    MultipleInProgress,
}

pub enum TodoErrorView {
    TooMany,
    ContentRequired { index: nat },
    InvalidStatus { index: nat, status: Seq<char> },
    ActiveFormRequired { index: nat },
    MultipleInProgress,
}

impl View for TodoError {
    type V = TodoErrorView;

    open spec fn view(&self) -> TodoErrorView {
        match self {
            TodoError::TooMany => TodoErrorView::TooMany,
            TodoError::ContentRequired { index } => TodoErrorView::ContentRequired {
                index: *index as nat,
            },
            TodoError::InvalidStatus { index, status } => TodoErrorView::InvalidStatus {
                index: *index as nat,
                status: status@,
            },
            TodoError::ActiveFormRequired { index } => TodoErrorView::ActiveFormRequired {
                index: *index as nat,
            },
            TodoError::MultipleInProgress => TodoErrorView::MultipleInProgress,
        }
    }
}

pub open spec fn todo_error_text(e: TodoErrorView) -> Seq<char> {
    match e {
        TodoErrorView::TooMany => "Max 20 todos"@,
        TodoErrorView::ContentRequired { index } => "Item "@ + decimal(index)
            + ": content required"@,
        TodoErrorView::InvalidStatus { index, status } => "Item "@ + decimal(index)
            + ": invalid status '"@ + status + "'"@,
        TodoErrorView::ActiveFormRequired { index } => "Item "@ + decimal(index)
            + ": activeForm required"@,
        TodoErrorView::MultipleInProgress => "Only one in_progress allowed"@,
    }
}

impl TodoError {
    /// The message shown for the refusal.
    pub fn message(&self) -> (m: String)
        ensures
            m@ == todo_error_text(self@),
    {
        match self {
            TodoError::TooMany => owned("Max 20 todos"),
            TodoError::ContentRequired { index } => {
                let d = usize_to_decimal(*index);
                concat3("Item ", d.as_str(), ": content required")
            },
            TodoError::InvalidStatus { index, status } => {
                let d = usize_to_decimal(*index);
                let mut m = concat3("Item ", d.as_str(), ": invalid status '");
                push_str(&mut m, status.as_str());
                push_str(&mut m, "'");
                m
            },
            TodoError::ActiveFormRequired { index } => {
                let d = usize_to_decimal(*index);
                concat3("Item ", d.as_str(), ": activeForm required")
            },
            TodoError::MultipleInProgress => owned("Only one in_progress allowed"),
        }
    }
}

// ---------------------------------------------------------------------------
// Validation
// ---------------------------------------------------------------------------

pub open spec fn is_known_status(s: Seq<char>) -> bool {
    s == "pending"@ || s == "in_progress"@ || s == "completed"@
}

/// An item as it is kept: texts trimmed, status lower-cased.
pub open spec fn normalized_item(item: TodoItemView) -> TodoItemView {
    TodoItemView {
        content: trim_seq(item.content),
        status: lower_seq(trim_seq(item.status)),
        active_form: trim_seq(item.active_form),
    }
}

/// What is wrong with the item at `index`, in the order in which it is checked.
pub open spec fn item_fault(item: TodoItemView, index: nat) -> Option<TodoErrorView> {
    let n = normalized_item(item);
    if n.content.len() == 0 {
        Some(TodoErrorView::ContentRequired { index })
    } else if !is_known_status(n.status) {
        Some(TodoErrorView::InvalidStatus { index, status: n.status })
    } else if n.active_form.len() == 0 {
        Some(TodoErrorView::ActiveFormRequired { index })
    } else {
        None
    }
}

pub open spec fn views(items: Seq<TodoItem>) -> Seq<TodoItemView> {
    items.map_values(|i: TodoItem| i@)
}

pub open spec fn count_status(items: Seq<TodoItemView>, status: Seq<char>) -> nat
    decreases items.len(),
{
    if items.len() == 0 {
        0
    } else {
        count_status(items.drop_last(), status) + if items.last().status == status {
            1nat
        } else {
            0nat
        }
    }
}

/// `items[k]` is the first item with a fault.
pub open spec fn first_fault(items: Seq<TodoItemView>, k: int) -> bool {
    0 <= k < items.len() && item_fault(items[k], k as nat) is Some && forall|j: int|
        0 <= j < k ==> item_fault(#[trigger] items[j], j as nat) is None
}

pub open spec fn normalized_items(items: Seq<TodoItemView>) -> Seq<TodoItemView> {
    items.map_values(|i: TodoItemView| normalized_item(i))
}

/// What validating a list gives: the kept items, or why the list was refused.
pub open spec fn validation(items: Seq<TodoItemView>) -> Result<Seq<TodoItemView>, TodoErrorView> {
    if items.len() > MAX_TODOS {
        Err(TodoErrorView::TooMany)
    } else if exists|k: int| first_fault(items, k) {
        let k = choose|k: int| first_fault(items, k);
        Err(item_fault(items[k], k as nat).unwrap())
    } else if count_status(normalized_items(items), "in_progress"@) > 1 {
        Err(TodoErrorView::MultipleInProgress)
    } else {
        Ok(normalized_items(items))
    }
}

fn is_known_status_exec(s: &str) -> (b: bool)
    ensures
        b == is_known_status(s@),
{
    str_eq(s, "pending") || str_eq(s, "in_progress") || str_eq(s, "completed")
}

/// Trims and checks each item; refuses lists longer than twenty, items without
/// content, status or active form, unknown statuses, and more than one item in
/// progress.
pub fn validate_items(items: Vec<TodoItem>) -> (r: Result<Vec<TodoItem>, TodoError>)
    ensures
        match r {
            Ok(v) => validation(views(items@)) == Ok::<Seq<TodoItemView>, TodoErrorView>(
                views(v@),
            ),
            Err(e) => validation(views(items@)) == Err::<Seq<TodoItemView>, TodoErrorView>(e@),
        },
{
    let ghost vs = views(items@);
    if items.len() > MAX_TODOS {
        return Err(TodoError::TooMany);
    }
    let mut validated: Vec<TodoItem> = Vec::new();
    let mut in_progress: usize = 0;
    let mut index: usize = 0;
    while index < items.len()
        invariant
            0 <= index <= items.len() <= MAX_TODOS,
            vs == views(items@),
            views(validated@) == normalized_items(vs.take(index as int)),
            in_progress == count_status(views(validated@), "in_progress"@),
            in_progress <= index,
            forall|j: int| 0 <= j < index ==> item_fault(#[trigger] vs[j], j as nat) is None,
        decreases items.len() - index,
    {
        let item = &items[index];
        let content = trim(item.content.as_str());
        if is_empty_text(content.as_str()) {
            proof {
                assert(first_fault(vs, index as int));
                lemma_first_fault_unique(vs, index as int);
            }
            return Err(TodoError::ContentRequired { index });
        }
        let status = trim_lower(item.status.as_str());
        if !is_known_status_exec(status.as_str()) {
            proof {
                assert(first_fault(vs, index as int));
                lemma_first_fault_unique(vs, index as int);
            }
            return Err(TodoError::InvalidStatus { index, status });
        }
        let active_form = trim(item.active_form.as_str());
        if is_empty_text(active_form.as_str()) {
            proof {
                assert(first_fault(vs, index as int));
                lemma_first_fault_unique(vs, index as int);
            }
            return Err(TodoError::ActiveFormRequired { index });
        }
        let is_ip = str_eq(status.as_str(), "in_progress");
        if is_ip {
            in_progress += 1;
        }
        let ghost before = views(validated@);
        validated.push(TodoItem { content, status, active_form });
        proof {
            assert(views(validated@) =~= before.push(normalized_item(vs[index as int])));
            assert(vs.take(index + 1) =~= vs.take(index as int).push(vs[index as int]));
            assert(normalized_items(vs.take(index + 1)) =~= normalized_items(
                vs.take(index as int),
            ).push(normalized_item(vs[index as int])));
            assert(views(validated@).drop_last() =~= before);
        }
        index += 1;
    }
    proof {
        assert(vs.take(items.len() as int) =~= vs);
        assert(!exists|k: int| first_fault(vs, k));
    }
    if in_progress > 1 {
        return Err(TodoError::MultipleInProgress);
    }
    Ok(validated)
}

proof fn lemma_first_fault_unique(items: Seq<TodoItemView>, k: int)
    requires
        first_fault(items, k),
    ensures
        forall|m: int| first_fault(items, m) ==> m == k,
{
    assert forall|m: int| first_fault(items, m) implies m == k by {
        if m < k {
            assert(item_fault(items[m], m as nat) is None);
        } else if m > k {
            assert(item_fault(items[k], k as nat) is None);
        }
    }
}

// ---------------------------------------------------------------------------
// Rendering
// ---------------------------------------------------------------------------

pub open spec fn status_marker(status: Seq<char>) -> Seq<char> {
    if status == "completed"@ {
        "[x]"@
    } else if status == "in_progress"@ {
        "[>]"@
    } else if status == "pending"@ {
        "[ ]"@
    } else {
        "[?]"@
    }
}

/// The line that shows one item.
pub open spec fn item_line(item: TodoItemView) -> Seq<char> {
    status_marker(item.status) + " "@ + item.content + if item.status == "in_progress"@ {
        " <- "@ + item.active_form
    } else {
        Seq::empty()
    }
}

/// Each item's line followed by a line break.
pub open spec fn item_lines(items: Seq<TodoItemView>) -> Seq<char>
    decreases items.len(),
{
    if items.len() == 0 {
        Seq::empty()
    } else {
        item_lines(items.drop_last()) + item_line(items.last()) + "\n"@
    }
}

/// The text that shows a todo list: one line per item, then a blank line and the
/// count of completed items.
pub open spec fn rendered(items: Seq<TodoItemView>) -> Seq<char> {
    if items.len() == 0 {
        "No todos."@
    } else {
        item_lines(items) + "\n("@ + decimal(count_status(items, "completed"@)) + "/"@
            + decimal(items.len()) + " completed)"@
    }
}

fn status_marker_exec(status: &str) -> (m: &'static str)
    ensures
        m@ == status_marker(status@),
{
    if str_eq(status, "completed") {
        "[x]"
    } else if str_eq(status, "in_progress") {
        "[>]"
    } else if str_eq(status, "pending") {
        "[ ]"
    } else {
        "[?]"
    }
}

/// Renders a todo list.
pub fn render_items(items: &Vec<TodoItem>) -> (s: String)
    ensures
        s@ == rendered(views(items@)),
{
    let ghost vs = views(items@);
    if items.len() == 0 {
        return owned("No todos.");
    }
    let mut out = String::new();
    let mut done: usize = 0;
    let mut i: usize = 0;
    while i < items.len()
        invariant
            0 <= i <= items.len(),
            vs == views(items@),
            out@ == item_lines(vs.take(i as int)),
            done == count_status(vs.take(i as int), "completed"@),
            done <= i,
        decreases items.len() - i,
    {
        let item = &items[i];
        let marker = status_marker_exec(item.status.as_str());
        push_str(&mut out, marker);
        push_str(&mut out, " ");
        push_str(&mut out, item.content.as_str());
        if str_eq(item.status.as_str(), "in_progress") {
            push_str(&mut out, " <- ");
            push_str(&mut out, item.active_form.as_str());
        }
        push_str(&mut out, "\n");
        if str_eq(item.status.as_str(), "completed") {
            done += 1;
        }
        proof {
            assert(vs.take(i + 1).drop_last() =~= vs.take(i as int));
            assert(vs.take(i + 1).last() == vs[i as int]);
        }
        i += 1;
    }
    proof {
        assert(vs.take(items.len() as int) =~= vs);
    }
    push_str(&mut out, "\n(");
    let d = usize_to_decimal(done);
    push_str(&mut out, d.as_str());
    push_str(&mut out, "/");
    let n = usize_to_decimal(items.len());
    push_str(&mut out, n.as_str());
    push_str(&mut out, " completed)");
    out
}

// ---------------------------------------------------------------------------
// The list itself
// ---------------------------------------------------------------------------

/// Whether some item is not completed.
pub open spec fn any_open(items: Seq<TodoItemView>) -> bool {
    exists|i: int| 0 <= i < items.len() && items[i].status != "completed"@
}

/// An agent's todo list.
#[derive(Debug, Clone)]
pub struct TodoManager {
    items: Vec<TodoItem>,
}

impl View for TodoManager {
    type V = Seq<TodoItemView>;

    closed spec fn view(&self) -> Seq<TodoItemView> {
        views(self.items@)
    }
}

impl Default for TodoManager {
    fn default() -> (r: Self)
        ensures
            r@.len() == 0,
    {
        TodoManager { items: Vec::new() }
    }
}

impl TodoManager {
    /// Replaces the list with the validated `items` and returns its rendering;
    /// a refused list leaves the current one as it was.
    pub fn update(&mut self, items: Vec<TodoItem>) -> (r: Result<String, TodoError>)
        ensures
            match r {
                Ok(text) => validation(views(items@)) == Ok::<
                    Seq<TodoItemView>,
                    TodoErrorView,
                >(final(self)@) && text@ == rendered(final(self)@),
                Err(e) => validation(views(items@)) == Err::<Seq<TodoItemView>, TodoErrorView>(
                    e@,
                ) && final(self)@ == old(self)@,
            },
    {
        match validate_items(items) {
            Ok(validated) => {
                self.items = validated;
                Ok(render_items(&self.items))
            },
            Err(e) => Err(e),
        }
    }

    /// Whether some item is not yet completed.
    pub fn has_open_items(&self) -> (b: bool)
        ensures
            b == any_open(self@),
    {
        let mut i: usize = 0;
        while i < self.items.len()
            invariant
                0 <= i <= self.items.len(),
                forall|j: int| 0 <= j < i ==> self@[j].status == "completed"@,
            decreases self.items.len() - i,
        {
            if !str_eq(self.items[i].status.as_str(), "completed") {
                assert(self@[i as int].status != "completed"@);
                return true;
            }
            i += 1;
        }
        false
    }

    /// A copy of the items.
    pub fn list_items(&self) -> (v: Vec<TodoItem>)
        ensures
            views(v@) == self@,
    {
        let mut v: Vec<TodoItem> = Vec::new();
        let mut i: usize = 0;
        while i < self.items.len()
            invariant
                0 <= i <= self.items.len(),
                views(v@) == self@.take(i as int),
            decreases self.items.len() - i,
        {
            let ghost before = views(v@);
            let c = self.items[i].clone();
            assert(c@ == self.items@[i as int]@);
            v.push(c);
            assert(views(v@) =~= before.push(self.items@[i as int]@));
            assert(self@.take(i + 1) =~= self@.take(i as int).push(self@[i as int]));
            assert(views(v@) =~= self@.take(i + 1));
            i += 1;
        }
        assert(self@.take(self.items.len() as int) =~= self@);
        v
    }

    /// The rendering of the current list.
    pub fn render(&self) -> (s: String)
        ensures
            s@ == rendered(self@),
    {
        render_items(&self.items)
    }
}

/// An item that a todo update refuses: after trimming, its content or
/// active form is blank, or its lower-cased status is not one of `pending`,
/// `in_progress` and `completed`.
pub open spec fn item_refused(item: TodoItemView) -> bool {
    let n = normalized_item(item);
    n.content.len() == 0 || !is_known_status(n.status) || n.active_form.len() == 0
}

proof fn lemma_first_fault_exists(items: Seq<TodoItemView>, k: int)
    requires
        0 <= k < items.len(),
        item_fault(items[k], k as nat) is Some,
    ensures
        exists|j: int| first_fault(items, j),
    decreases k,
{
    if exists|j: int| 0 <= j < k && item_fault(#[trigger] items[j], j as nat) is Some {
        let j = choose|j: int| 0 <= j < k && item_fault(#[trigger] items[j], j as nat) is Some;
        lemma_first_fault_exists(items, j);
    } else {
        assert(first_fault(items, k));
    }
}

/// A todo update is refused exactly when the list has more than twenty
/// items, or one of its items is refused, or more than one item is in
/// progress once normalised; otherwise the list kept is the normalised list.
pub proof fn lemma_todo_update_refusals(items: Seq<TodoItemView>)
    ensures
        validation(items) is Err <==> (items.len() > MAX_TODOS || (exists|k: int|
            0 <= k < items.len() && item_refused(#[trigger] items[k])) || count_status(
            normalized_items(items),
            "in_progress"@,
        ) > 1),
        validation(items) is Ok ==> validation(items) == Ok::<Seq<TodoItemView>, TodoErrorView>(
            normalized_items(items),
        ),
{
    if exists|k: int| 0 <= k < items.len() && item_refused(#[trigger] items[k]) {
        let k = choose|k: int| 0 <= k < items.len() && item_refused(#[trigger] items[k]);
        assert(item_fault(items[k], k as nat) is Some);
        lemma_first_fault_exists(items, k);
    }
    if exists|k: int| first_fault(items, k) {
        let k = choose|k: int| first_fault(items, k);
        assert(item_refused(items[k]));
    }
}

} // verus!
