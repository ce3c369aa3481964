//! Reports: which tasks a view shows, the rows it shows for them, and the
//! counts it ends with. A report is a value; showing it is the caller's
//! business.

use crate::db::{get_labels, get_open_tasks, get_refs, get_steps};
use crate::seqs::{lemma_filter_all, lemma_filter_keeps_none, lemma_filter_next};
use crate::store::{Database, Store};
use crate::task::{
    done_views, step_views, task_views, Priority, Status, Step, StepView, Task, TaskDone,
    TaskDoneView, TaskView, TimeWindow,
};
use crate::text::{decimal, decimal_of, each_followed_by, join_each, texts};
use crate::time::{date_pattern, date_text, formatted_time};
use vstd::prelude::*;

verus! {

/// What a report of open tasks shows.
#[derive(Debug)]
pub struct ShowParams<'a> {
    /// The labels that a task must have, all of them, to be shown.
    pub label: &'a [String],
    /// Whether the reference of each task is shown.
    pub reference: bool,
    /// The name of the status that a task must have to be shown; empty for
    /// tasks of any status.
    pub status: &'a str,
    /// Whether the story points of each task are shown.
    pub storypoints: bool,
    /// Whether the open steps of each task are shown.
    pub steps: bool,
}

/// What a [`ShowParams`] holds, as mathematical values.
pub struct ShowParamsView {
    pub label: Seq<Seq<char>>,
    pub reference: bool,
    pub status: Seq<char>,
    pub storypoints: bool,
    pub steps: bool,
}

impl<'a> View for ShowParams<'a> {
    type V = ShowParamsView;

    open spec fn view(&self) -> ShowParamsView {
        ShowParamsView {
            label: texts(self.label@),
            reference: self.reference,
            status: self.status@,
            storypoints: self.storypoints,
            steps: self.steps,
        }
    }
}

/// How many of the shown tasks have each status.
#[derive(Clone, Copy, Debug, PartialEq, Eq, Structural)]
pub struct StatusCounts {
    pub todo: usize,
    pub in_progress: usize,
    pub done: usize,
    pub block: usize,
}

/// The line of counts that ends a report.
#[derive(Clone, Copy, Debug, PartialEq, Eq, Structural)]
pub enum Summary {
    /// No counts.
    Nothing,
    /// The number of tasks shown.
    Count(usize),
    /// The number of tasks shown, status by status.
    PerStatus(StatusCounts),
}

/// A report: a title row, the rows under it, and the counts that end it.
#[derive(Debug)]
pub struct Table {
    pub titles: Vec<String>,
    pub rows: Vec<Vec<String>>,
    pub summary: Summary,
}

/// What a [`Table`] holds, as mathematical values.
pub struct TableView {
    pub titles: Seq<Seq<char>>,
    pub rows: Seq<Seq<Seq<char>>>,
    pub summary: Summary,
}

/// The cells of each row of `rows`, in order.
pub open spec fn row_texts(rows: Seq<Vec<String>>) -> Seq<Seq<Seq<char>>> {
    rows.map_values(|r: Vec<String>| texts(r@))
}

impl View for Table {
    type V = TableView;

    open spec fn view(&self) -> TableView {
        TableView {
            titles: texts(self.titles@),
            rows: row_texts(self.rows@),
            summary: self.summary,
        }
    }
}

/// Whether a task with the labels `attached` has every label of `required`.
/// Labels are compared exactly.
pub open spec fn label_match(required: Seq<Seq<char>>, attached: Seq<Seq<char>>) -> bool {
    forall|i: int| 0 <= i < required.len() ==> attached.contains(#[trigger] required[i])
}

/// Whether a task passes the status filter `status`: the empty filter lets
/// every task pass, any other the tasks whose status has that name.
pub open spec fn status_match(status: Seq<char>, t: TaskView) -> bool {
    status.len() == 0 || t.status.name_of() == status
}

/// Whether a task belongs in the short report: it is blocked or in progress,
/// or its priority is high or urgent.
pub open spec fn is_pressing(t: TaskView) -> bool {
    t.status == Status::Block || t.status == Status::InProgress || t.priority == Priority::High
        || t.priority == Priority::Urgent
}

/// With no label required every task passes the label filter.
pub proof fn lemma_no_label_required(attached: Seq<Seq<char>>)
    ensures
        label_match(Seq::empty(), attached),
{
}

/// A task without labels passes the label filter only if no label is
/// required.
pub proof fn lemma_unlabelled_task(required: Seq<Seq<char>>)
    ensures
        label_match(required, Seq::empty()) <==> required.len() == 0,
{
    if required.len() > 0 {
        assert(!Seq::<Seq<char>>::empty().contains(required[0]));
    }
}

/// Tells whether `text` is among `list`.
fn contains_text(list: &[String], text: &str) -> (r: bool)
    ensures
        r == texts(list@).contains(text@),
{
    let mut i: usize = 0;
    while i < list.len()
        invariant
            0 <= i <= list.len(),
            forall|k: int| 0 <= k < i ==> (#[trigger] list[k])@ != text@,
        decreases list.len() - i,
    {
        if *list[i].as_str() == *text {
            assert(texts(list@)[i as int] == text@);
            return true;
        }
        i = i + 1;
    }
    assert forall|k: int| 0 <= k < texts(list@).len() implies #[trigger] texts(list@)[k]
        != text@ by {
        assert(texts(list@)[k] == list[k]@);
    }
    false
}

/// Tells whether a task with the labels `task_labels` has every label of
/// `labels`.
pub fn check_label(labels: &[String], task_labels: &[String]) -> (r: bool)
    ensures
        r == label_match(texts(labels@), texts(task_labels@)),
{
    let mut i: usize = 0;
    while i < labels.len()
        invariant
            0 <= i <= labels.len(),
            forall|k: int|
                0 <= k < i ==> texts(task_labels@).contains(#[trigger] texts(labels@)[k]),
        decreases labels.len() - i,
    {
        if !contains_text(task_labels, labels[i].as_str()) {
            assert(texts(labels@)[i as int] == labels[i as int]@);
            return false;
        }
        assert(texts(labels@)[i as int] == labels[i as int]@);
        i = i + 1;
    }
    true
}

/// The labels of `labels`, each followed by a line break.
pub fn label_to_str(labels: &[String]) -> (r: String)
    ensures
        r@ == each_followed_by(texts(labels@), "\n"@),
{
    join_each(labels, "\n")
}

/// The tasks of `tasks` that have every label of `labels`, in order.
pub fn filter_by_labels(db: &Store, tasks: &[Task], labels: &[String]) -> (r: Vec<Task>)
    requires
        db.wf(),
    ensures
        task_views(r@) == task_views(tasks@).filter(
            |t: TaskView| label_match(texts(labels@), db@.labels_of(t.id)),
        ),
{
    let ghost all = task_views(tasks@);
    let ghost pred = |t: TaskView| label_match(texts(labels@), db@.labels_of(t.id));
    let mut out: Vec<Task> = Vec::new();
    let mut i: usize = 0;
    proof {
        lemma_filter_keeps_none(all.take(0), pred);
        assert(task_views(out@) =~= all.take(0).filter(pred));
    }
    while i < tasks.len()
        invariant
            0 <= i <= tasks.len(),
            db.wf(),
            all == task_views(tasks@),
            pred == |t: TaskView| label_match(texts(labels@), db@.labels_of(t.id)),
            task_views(out@) == all.take(i as int).filter(pred),
        decreases tasks.len() - i,
    {
        proof {
            lemma_filter_next(all, pred, i as int);
        }
        let attached = attached_labels(db, tasks[i].id);
        if check_label(labels, attached.as_slice()) {
            let ghost collected = task_views(out@);
            out.push(tasks[i].clone());
            assert(task_views(out@) =~= collected.push(all[i as int]));
        }
        i = i + 1;
    }
    proof {
        lemma_filter_all(all, pred);
    }
    out
}

/// The labels of the task `id`; none where the store has not been set up.
fn attached_labels(db: &Store, id: u32) -> (r: Vec<String>)
    requires
        db.wf(),
    ensures
        texts(r@) == db@.labels_of(id),
{
    match get_labels(db, id) {
        Ok(labels) => labels,
        Err(_) => {
            let none: Vec<String> = Vec::new();
            proof {
                lemma_filter_keeps_none(db@.labels, |l: crate::store::LabelRecord| l.todo_id == id);
                assert(texts(none@) =~= db@.labels_of(id));
            }
            none
        },
    }
}

/// The tasks of `tasks` that pass the status filter `status`, in order: all
/// of them for the empty filter, else those whose status has that name.
pub fn filter_by_status(tasks: &[Task], status: &str) -> (r: Vec<Task>)
    ensures
        task_views(r@) == task_views(tasks@).filter(|t: TaskView| status_match(status@, t)),
{
    let ghost all = task_views(tasks@);
    let ghost pred = |t: TaskView| status_match(status@, t);
    let any: bool = status.unicode_len() == 0;
    let mut out: Vec<Task> = Vec::new();
    let mut i: usize = 0;
    proof {
        lemma_filter_keeps_none(all.take(0), pred);
        assert(task_views(out@) =~= all.take(0).filter(pred));
    }
    while i < tasks.len()
        invariant
            0 <= i <= tasks.len(),
            all == task_views(tasks@),
            any == (status@.len() == 0),
            pred == |t: TaskView| status_match(status@, t),
            task_views(out@) == all.take(i as int).filter(pred),
        decreases tasks.len() - i,
    {
        proof {
            lemma_filter_next(all, pred, i as int);
        }
        if any || *tasks[i].status.name() == *status {
            let ghost collected = task_views(out@);
            out.push(tasks[i].clone());
            assert(task_views(out@) =~= collected.push(all[i as int]));
        }
        i = i + 1;
    }
    proof {
        lemma_filter_all(all, pred);
    }
    out
}

/// The tasks of `tasks` that belong in the short report, in order.
pub fn filter_pressing(tasks: &[Task]) -> (r: Vec<Task>)
    ensures
        task_views(r@) == task_views(tasks@).filter(|t: TaskView| is_pressing(t)),
{
    let ghost all = task_views(tasks@);
    let ghost pred = |t: TaskView| is_pressing(t);
    let mut out: Vec<Task> = Vec::new();
    let mut i: usize = 0;
    proof {
        lemma_filter_keeps_none(all.take(0), pred);
        assert(task_views(out@) =~= all.take(0).filter(pred));
    }
    while i < tasks.len()
        invariant
            0 <= i <= tasks.len(),
            all == task_views(tasks@),
            pred == |t: TaskView| is_pressing(t),
            task_views(out@) == all.take(i as int).filter(pred),
        decreases tasks.len() - i,
    {
        proof {
            lemma_filter_next(all, pred, i as int);
        }
        let t = &tasks[i];
        if t.status == Status::Block || t.status == Status::InProgress || t.priority
            == Priority::High || t.priority == Priority::Urgent {
            let ghost collected = task_views(out@);
            out.push(tasks[i].clone());
            assert(task_views(out@) =~= collected.push(all[i as int]));
        }
        i = i + 1;
    }
    proof {
        lemma_filter_all(all, pred);
    }
    out
}

/// The completed tasks of `tasks` that lie inside `window` at the time
/// `now`, in order: those completed less than the window's length ago.
pub fn time_window_filter(tasks: &[TaskDone], window: TimeWindow, now: i64) -> (r: Vec<TaskDone>)
    ensures
        done_views(r@) == done_views(tasks@).filter(
            |t: TaskDoneView| window.covers(t.completion_date, now),
        ),
{
    let ghost all = done_views(tasks@);
    let ghost pred = |t: TaskDoneView| window.covers(t.completion_date, now);
    let mut out: Vec<TaskDone> = Vec::new();
    let mut i: usize = 0;
    proof {
        lemma_filter_keeps_none(all.take(0), pred);
        assert(done_views(out@) =~= all.take(0).filter(pred));
    }
    while i < tasks.len()
        invariant
            0 <= i <= tasks.len(),
            all == done_views(tasks@),
            pred == |t: TaskDoneView| window.covers(t.completion_date, now),
            done_views(out@) == all.take(i as int).filter(pred),
        decreases tasks.len() - i,
    {
        proof {
            lemma_filter_next(all, pred, i as int);
        }
        if window.contains(tasks[i].completion_date, now) {
            let ghost collected = done_views(out@);
            out.push(tasks[i].clone());
            assert(done_views(out@) =~= collected.push(all[i as int]));
        }
        i = i + 1;
    }
    proof {
        lemma_filter_all(all, pred);
    }
    out
}

/// The completed tasks of `tasks` that have every label of `labels`, in
/// order.
pub fn filter_done_by_labels(db: &Store, tasks: &[TaskDone], labels: &[String]) -> (r: Vec<
    TaskDone,
>)
    requires
        db.wf(),
    ensures
        done_views(r@) == done_views(tasks@).filter(
            |t: TaskDoneView| label_match(texts(labels@), db@.labels_of(t.id)),
        ),
{
    let ghost all = done_views(tasks@);
    let ghost pred = |t: TaskDoneView| label_match(texts(labels@), db@.labels_of(t.id));
    let mut out: Vec<TaskDone> = Vec::new();
    let mut i: usize = 0;
    proof {
        lemma_filter_keeps_none(all.take(0), pred);
        assert(done_views(out@) =~= all.take(0).filter(pred));
    }
    while i < tasks.len()
        invariant
            0 <= i <= tasks.len(),
            db.wf(),
            all == done_views(tasks@),
            pred == |t: TaskDoneView| label_match(texts(labels@), db@.labels_of(t.id)),
            done_views(out@) == all.take(i as int).filter(pred),
        decreases tasks.len() - i,
    {
        proof {
            lemma_filter_next(all, pred, i as int);
        }
        let attached = attached_labels(db, tasks[i].id);
        if check_label(labels, attached.as_slice()) {
            let ghost collected = done_views(out@);
            out.push(tasks[i].clone());
            assert(done_views(out@) =~= collected.push(all[i as int]));
        }
        i = i + 1;
    }
    proof {
        lemma_filter_all(all, pred);
    }
    out
}

/// How many tasks of `tasks` have the status `status`.
pub open spec fn count_with(tasks: Seq<TaskView>, status: Status) -> nat {
    tasks.filter(|t: TaskView| t.status == status).len()
}

/// How many tasks of `tasks` have each status.
pub open spec fn counts_of(tasks: Seq<TaskView>) -> StatusCounts {
    StatusCounts {
        todo: count_with(tasks, Status::Todo) as usize,
        in_progress: count_with(tasks, Status::InProgress) as usize,
        done: count_with(tasks, Status::Done) as usize,
        block: count_with(tasks, Status::Block) as usize,
    }
}

/// Counts the tasks of `tasks` status by status.
pub fn aggregate_counts(tasks: &[Task]) -> (r: StatusCounts)
    ensures
        r == counts_of(task_views(tasks@)),
        r.todo + r.in_progress + r.done + r.block == tasks.len(),
{
    let ghost all = task_views(tasks@);
    let ghost is_todo = |t: TaskView| t.status == Status::Todo;
    let ghost is_started = |t: TaskView| t.status == Status::InProgress;
    let ghost is_done = |t: TaskView| t.status == Status::Done;
    let ghost is_blocked = |t: TaskView| t.status == Status::Block;
    let mut r = StatusCounts { todo: 0, in_progress: 0, done: 0, block: 0 };
    let mut i: usize = 0;
    proof {
        lemma_filter_keeps_none(all.take(0), is_todo);
        lemma_filter_keeps_none(all.take(0), is_started);
        lemma_filter_keeps_none(all.take(0), is_done);
        lemma_filter_keeps_none(all.take(0), is_blocked);
    }
    while i < tasks.len()
        invariant
            0 <= i <= tasks.len(),
            all == task_views(tasks@),
            is_todo == |t: TaskView| t.status == Status::Todo,
            is_started == |t: TaskView| t.status == Status::InProgress,
            is_done == |t: TaskView| t.status == Status::Done,
            is_blocked == |t: TaskView| t.status == Status::Block,
            r.todo == all.take(i as int).filter(is_todo).len(),
            r.in_progress == all.take(i as int).filter(is_started).len(),
            r.done == all.take(i as int).filter(is_done).len(),
            r.block == all.take(i as int).filter(is_blocked).len(),
            r.todo + r.in_progress + r.done + r.block == i,
        decreases tasks.len() - i,
    {
        proof {
            lemma_filter_next(all, is_todo, i as int);
            lemma_filter_next(all, is_started, i as int);
            lemma_filter_next(all, is_done, i as int);
            lemma_filter_next(all, is_blocked, i as int);
        }
        match tasks[i].status {
            Status::Todo => {
                r.todo = r.todo + 1;
            },
            Status::InProgress => {
                r.in_progress = r.in_progress + 1;
            },
            Status::Done => {
                r.done = r.done + 1;
            },
            Status::Block => {
                r.block = r.block + 1;
            },
        }
        i = i + 1;
    }
    proof {
        lemma_filter_all(all, is_todo);
        lemma_filter_all(all, is_started);
        lemma_filter_all(all, is_done);
        lemma_filter_all(all, is_blocked);
    }
    r
}

/// The cells that the toggles add to a row: `points` if story points are
/// shown, then `reference` if references are shown.
pub open spec fn extra_cells(
    storypoints: bool,
    reference: bool,
    points: Seq<char>,
    text: Seq<char>,
) -> Seq<Seq<char>> {
    (if storypoints {
        seq![points]
    } else {
        Seq::empty()
    }) + (if reference {
        seq![text]
    } else {
        Seq::empty()
    })
}

/// The title row of a report of open tasks.
pub open spec fn titles_of(p: ShowParamsView) -> Seq<Seq<char>> {
    seq!["Id"@, "Priority"@, "Status"@, "Labels"@, "Description"@] + extra_cells(
        p.storypoints,
        p.reference,
        "Story points"@,
        "Reference"@,
    )
}

/// The title row of a report of completed tasks.
pub open spec fn done_titles_of(storypoints: bool, reference: bool) -> Seq<Seq<char>> {
    seq!["Id"@, "Labels"@, "Description"@, "Completed at"@] + extra_cells(
        storypoints,
        reference,
        "Story points"@,
        "Reference"@,
    )
}

/// The reference text that a report shows for the task `id`: empty for a
/// task without reference and for a task that the store does not hold.
pub open spec fn shown_reference(d: Database, id: u32) -> Seq<char> {
    if d.has_task(id) {
        d.reference_of(id)
    } else {
        Seq::empty()
    }
}

/// The row of the task `t`.
pub open spec fn task_cells(d: Database, t: TaskView, p: ShowParamsView) -> Seq<Seq<char>> {
    seq![
        decimal_of(t.id as nat),
        t.priority.name_of(),
        t.status.name_of(),
        each_followed_by(d.labels_of(t.id), "\n"@),
        t.descr,
    ] + extra_cells(
        p.storypoints,
        p.reference,
        decimal_of(t.storypoints as nat),
        shown_reference(d, t.id),
    )
}

/// The row of the step `s`, set in under the row of its task.
pub open spec fn step_cells(s: StepView, p: ShowParamsView) -> Seq<Seq<char>> {
    seq![""@, "Step"@, decimal_of(s.step_id as nat), ""@, s.descr] + extra_cells(
        p.storypoints,
        p.reference,
        ""@,
        ""@,
    )
}

/// The rows of the open steps of the task `id`.
pub open spec fn step_rows(d: Database, id: u32, p: ShowParamsView) -> Seq<Seq<Seq<char>>> {
    d.open_steps_of(id).map_values(|s: StepView| step_cells(s, p))
}

/// The rows of the task `t`: its own, and under it those of its open steps
/// if steps are shown.
pub open spec fn rows_for(d: Database, t: TaskView, p: ShowParamsView) -> Seq<Seq<Seq<char>>> {
    seq![task_cells(d, t, p)] + if p.steps {
        step_rows(d, t.id, p)
    } else {
        Seq::empty()
    }
}

/// The rows of the tasks `tasks`, task after task.
pub open spec fn rows_of(d: Database, tasks: Seq<TaskView>, p: ShowParamsView) -> Seq<
    Seq<Seq<char>>,
>
    decreases tasks.len(),
{
    if tasks.len() == 0 {
        Seq::empty()
    } else {
        rows_of(d, tasks.drop_last(), p) + rows_for(d, tasks.last(), p)
    }
}

/// The row of the completed task `t`, with `when` as the text of its
/// completion date; an empty cell stands for a date without text.
pub open spec fn done_cells(
    d: Database,
    t: TaskDoneView,
    when: Option<Seq<char>>,
    storypoints: bool,
    reference: bool,
) -> Seq<Seq<char>> {
    seq![
        decimal_of(t.id as nat),
        each_followed_by(d.labels_of(t.id), "\n"@),
        t.descr,
        match when {
            Some(text) => text,
            None => Seq::empty(),
        },
    ] + extra_cells(
        storypoints,
        reference,
        decimal_of(t.storypoints as nat),
        shown_reference(d, t.id),
    )
}

/// The rows of the completed tasks `tasks`, task after task, each with its
/// completion date as text.
pub open spec fn done_rows_of(
    d: Database,
    tasks: Seq<TaskDoneView>,
    storypoints: bool,
    reference: bool,
) -> Seq<Seq<Seq<char>>> {
    tasks.map_values(
        |t: TaskDoneView|
            done_cells(
                d,
                t,
                formatted_time(t.completion_date, date_pattern()),
                storypoints,
                reference,
            ),
    )
}

/// The counts that end a report of open tasks: with a status filter the
/// number of tasks shown; without one the counts status by status if more
/// than one task is shown, and nothing otherwise.
pub open spec fn summary_of(status: Seq<char>, shown: Seq<TaskView>) -> Summary {
    if status.len() > 0 {
        Summary::Count(shown.len() as usize)
    } else if shown.len() > 1 {
        Summary::PerStatus(counts_of(shown))
    } else {
        Summary::Nothing
    }
}

/// The tasks of `tasks` that the report with the parameters `p` shows: those
/// that have every required label and pass the status filter.
pub open spec fn shown_tasks(d: Database, tasks: Seq<TaskView>, p: ShowParamsView) -> Seq<
    TaskView,
> {
    tasks.filter(|t: TaskView| label_match(p.label, d.labels_of(t.id))).filter(
        |t: TaskView| status_match(p.status, t),
    )
}

/// The report of the tasks `tasks` under the parameters `p`.
pub open spec fn report_of(d: Database, tasks: Seq<TaskView>, p: ShowParamsView) -> TableView {
    TableView {
        titles: titles_of(p),
        rows: rows_of(d, shown_tasks(d, tasks, p), p),
        summary: summary_of(p.status, shown_tasks(d, tasks, p)),
    }
}

/// The short report of the tasks `tasks`: of those that have every label of
/// `labels`, the ones that are blocked, in progress, or of high or urgent
/// priority, each with its open steps, ended by the counts status by status
/// if more than one task is shown.
pub open spec fn short_report_of(
    d: Database,
    tasks: Seq<TaskView>,
    labels: Seq<Seq<char>>,
    reference: bool,
    storypoints: bool,
) -> TableView {
    let p = ShowParamsView { label: labels, reference, status: Seq::empty(), storypoints, steps: true };
    let shown = tasks.filter(|t: TaskView| label_match(labels, d.labels_of(t.id))).filter(
        |t: TaskView| is_pressing(t),
    );
    TableView { titles: titles_of(p), rows: rows_of(d, shown, p), summary: summary_of(p.status, shown) }
}

/// The report of the completed tasks `tasks` at the time `now`: of those
/// inside `window` the ones that have every label of `labels`, ended by
/// their number.
pub open spec fn done_report_of(
    d: Database,
    tasks: Seq<TaskDoneView>,
    labels: Seq<Seq<char>>,
    window: TimeWindow,
    now: i64,
    reference: bool,
    storypoints: bool,
) -> TableView {
    let shown = tasks.filter(|t: TaskDoneView| window.covers(t.completion_date, now)).filter(
        |t: TaskDoneView| label_match(labels, d.labels_of(t.id)),
    );
    TableView {
        titles: done_titles_of(storypoints, reference),
        rows: done_rows_of(d, shown, storypoints, reference),
        summary: Summary::Count(shown.len() as usize),
    }
}

/// Appends to `row` the cells that the toggles ask for.
fn push_extra(row: &mut Vec<String>, storypoints: bool, reference: bool, points: String, text: String)
    ensures
        texts(final(row)@) == texts(old(row)@) + extra_cells(storypoints, reference, points@, text@),
{
    if storypoints {
        row.push(points);
    }
    if reference {
        row.push(text);
    }
    assert(texts(row@) =~= texts(old(row)@) + extra_cells(storypoints, reference, points@, text@));
}

/// The reference text that a report shows for the task `id`.
fn reference_cell(db: &Store, id: u32) -> (r: String)
    requires
        db.wf(),
    ensures
        r@ == shown_reference(db@, id),
{
    match get_refs(db, id) {
        Ok(text) => text,
        Err(_) => String::new(),
    }
}

/// The title row of a report of open tasks under the parameters `param`.
pub fn set_title(param: &ShowParams) -> (r: Vec<String>)
    ensures
        texts(r@) == titles_of(param@),
{
    let mut r: Vec<String> = Vec::new();
    r.push(String::from_str("Id"));
    r.push(String::from_str("Priority"));
    r.push(String::from_str("Status"));
    r.push(String::from_str("Labels"));
    r.push(String::from_str("Description"));
    assert(texts(r@) =~= seq!["Id"@, "Priority"@, "Status"@, "Labels"@, "Description"@]);
    push_extra(
        &mut r,
        param.storypoints,
        param.reference,
        String::from_str("Story points"),
        String::from_str("Reference"),
    );
    r
}

/// The title row of a report of completed tasks.
pub fn set_done_title(storypoints: bool, reference: bool) -> (r: Vec<String>)
    ensures
        texts(r@) == done_titles_of(storypoints, reference),
{
    let mut r: Vec<String> = Vec::new();
    r.push(String::from_str("Id"));
    r.push(String::from_str("Labels"));
    r.push(String::from_str("Description"));
    r.push(String::from_str("Completed at"));
    assert(texts(r@) =~= seq!["Id"@, "Labels"@, "Description"@, "Completed at"@]);
    push_extra(
        &mut r,
        storypoints,
        reference,
        String::from_str("Story points"),
        String::from_str("Reference"),
    );
    r
}

/// Appends to `rows` the rows of the open steps of the task `task_id`.
pub fn show_steps(db: &Store, rows: &mut Vec<Vec<String>>, task_id: u32, param: &ShowParams)
    requires
        db.wf(),
    ensures
        row_texts(final(rows)@) == row_texts(old(rows)@) + step_rows(db@, task_id, param@),
{
    let steps = match get_steps(db, task_id) {
        Ok(steps) => steps,
        Err(_) => {
            proof {
                lemma_filter_keeps_none(
                    db@.steps,
                    |s: StepView| s.todo_id == task_id && s.is_open(),
                );
            }
            Vec::new()
        },
    };
    let ghost start = row_texts(old(rows)@);
    let ghost cells = |s: StepView| step_cells(s, param@);
    assert(step_views(steps@) =~= db@.open_steps_of(task_id));
    assert(row_texts(rows@) =~= start + step_views(steps@).take(0).map_values(cells));
    let mut i: usize = 0;
    while i < steps.len()
        invariant
            0 <= i <= steps.len(),
            cells == |s: StepView| step_cells(s, param@),
            row_texts(rows@) == start + step_views(steps@).take(i as int).map_values(cells),
        decreases steps.len() - i,
    {
        let step = &steps[i];
        let mut row: Vec<String> = Vec::new();
        row.push(String::new());
        row.push(String::from_str("Step"));
        row.push(decimal(step.step_id));
        row.push(String::new());
        row.push(step.descr.clone());
        proof {
            reveal_strlit("");
            assert(""@ =~= Seq::<char>::empty());
            assert(texts(row@) =~= seq![
                ""@,
                "Step"@,
                decimal_of(step.step_id as nat),
                ""@,
                step.descr@,
            ]);
        }
        push_extra(&mut row, param.storypoints, param.reference, String::new(), String::new());
        let ghost shown = row_texts(rows@);
        rows.push(row);
        proof {
            let done = step_views(steps@).take(i as int);
            let next = step_views(steps@).take(i + 1);
            assert(step_views(steps@)[i as int] == steps[i as int]@);
            assert(next =~= done.push(steps[i as int]@));
            assert(next.map_values(cells) =~= done.map_values(cells).push(
                step_cells(steps[i as int]@, param@),
            ));
            assert(row_texts(rows@) =~= shown.push(step_cells(steps[i as int]@, param@)));
        }
        i = i + 1;
    }
    assert(step_views(steps@).take(i as int) =~= step_views(steps@));
}

/// The rows of the tasks `tasks` under the parameters `param`.
pub fn task_rows(db: &Store, tasks: &[Task], param: &ShowParams) -> (rows: Vec<Vec<String>>)
    requires
        db.wf(),
    ensures
        row_texts(rows@) == rows_of(db@, task_views(tasks@), param@),
{
    let ghost all = task_views(tasks@);
    let mut rows: Vec<Vec<String>> = Vec::new();
    let mut i: usize = 0;
    assert(row_texts(rows@) =~= rows_of(db@, all.take(0), param@));
    while i < tasks.len()
        invariant
            0 <= i <= tasks.len(),
            db.wf(),
            all == task_views(tasks@),
            row_texts(rows@) == rows_of(db@, all.take(i as int), param@),
        decreases tasks.len() - i,
    {
        let t = &tasks[i];
        let attached = attached_labels(db, t.id);
        let mut row: Vec<String> = Vec::new();
        row.push(decimal(t.id));
        row.push(String::from_str(t.priority.name()));
        row.push(String::from_str(t.status.name()));
        row.push(label_to_str(attached.as_slice()));
        row.push(t.descr.clone());
        assert(texts(row@) =~= seq![
            decimal_of(t.id as nat),
            t.priority.name_of(),
            t.status.name_of(),
            each_followed_by(db@.labels_of(t.id), "\n"@),
            t.descr@,
        ]);
        let points = if param.storypoints {
            decimal(t.storypoints)
        } else {
            String::new()
        };
        let reference = if param.reference {
            reference_cell(db, t.id)
        } else {
            String::new()
        };
        let ghost head = texts(row@);
        push_extra(&mut row, param.storypoints, param.reference, points, reference);
        assert(texts(row@) =~= task_cells(db@, t@, param@)) by {
            assert(extra_cells(param.storypoints, param.reference, points@, reference@)
                =~= extra_cells(
                param.storypoints,
                param.reference,
                decimal_of(t.storypoints as nat),
                shown_reference(db@, t.id),
            ));
        }
        let ghost shown = row_texts(rows@);
        rows.push(row);
        assert(row_texts(rows@) =~= shown.push(task_cells(db@, t@, param@)));
        if param.steps {
            show_steps(db, &mut rows, t.id, param);
        }
        proof {
            assert(all.take(i + 1).drop_last() =~= all.take(i as int));
            assert(all.take(i + 1).last() == t@);
            assert(row_texts(rows@) =~= shown + rows_for(db@, t@, param@));
        }
        i = i + 1;
    }
    assert(all.take(i as int) =~= all);
    rows
}

/// The counts that end a report of the open tasks `shown` under the status
/// filter `status`.
pub fn summarize(status: &str, shown: &[Task]) -> (r: Summary)
    ensures
        r == summary_of(status@, task_views(shown@)),
{
    if status.unicode_len() > 0 {
        Summary::Count(shown.len())
    } else if shown.len() > 1 {
        Summary::PerStatus(aggregate_counts(shown))
    } else {
        Summary::Nothing
    }
}

/// The report of the tasks `tasks` under the parameters `param`: a row for
/// each task that has every required label and passes the status filter,
/// with its open steps under it if steps are shown.
pub fn show2(db: &Store, tasks: &[Task], param: ShowParams) -> (r: Table)
    requires
        db.wf(),
    ensures
        r@ == report_of(db@, task_views(tasks@), param@),
{
    let labelled = filter_by_labels(db, tasks, param.label);
    let shown = filter_by_status(labelled.as_slice(), param.status);
    Table {
        titles: set_title(&param),
        rows: task_rows(db, shown.as_slice(), &param),
        summary: summarize(param.status, shown.as_slice()),
    }
}

/// The report of the one open task `task_id`, with story points, reference
/// and steps; `None` if no open task has that identifier.
pub fn show1task(db: &Store, task_id: u32) -> (r: Option<Table>)
    requires
        db.wf(),
    ensures
        ({
            let mine = db@.open_tasks().filter(|t: TaskView| t.id == task_id);
            let p = ShowParamsView {
                label: Seq::empty(),
                reference: true,
                status: Seq::empty(),
                storypoints: true,
                steps: true,
            };
            match r {
                Some(table) => mine.len() > 0 && table@ == report_of(db@, mine, p),
                None => mine.len() == 0,
            }
        }),
{
    let open = match get_open_tasks(db) {
        Ok(open) => open,
        Err(_) => {
            let none: Vec<Task> = Vec::new();
            proof {
                assert(db@.open_tasks() =~= Seq::empty()) by {
                    reveal(Seq::filter);
                }
                assert(task_views(none@) =~= db@.open_tasks());
            }
            none
        },
    };
    let ghost all = task_views(open@);
    let ghost pred = |t: TaskView| t.id == task_id;
    let mut mine: Vec<Task> = Vec::new();
    let mut i: usize = 0;
    proof {
        lemma_filter_keeps_none(all.take(0), pred);
        assert(task_views(mine@) =~= all.take(0).filter(pred));
    }
    while i < open.len()
        invariant
            0 <= i <= open.len(),
            all == task_views(open@),
            pred == |t: TaskView| t.id == task_id,
            task_views(mine@) == all.take(i as int).filter(pred),
        decreases open.len() - i,
    {
        proof {
            lemma_filter_next(all, pred, i as int);
        }
        if open[i].id == task_id {
            let ghost collected = task_views(mine@);
            mine.push(open[i].clone());
            assert(task_views(mine@) =~= collected.push(all[i as int]));
        }
        i = i + 1;
    }
    proof {
        lemma_filter_all(all, pred);
    }
    if mine.len() == 0 {
        return None;
    }
    let none: Vec<String> = Vec::new();
    proof {
        reveal_strlit("");
        assert(""@ =~= Seq::<char>::empty());
        assert(texts(none@) =~= Seq::empty());
    }
    Some(
        show2(
            db,
            mine.as_slice(),
            ShowParams {
                label: none.as_slice(),
                status: "",
                reference: true,
                storypoints: true,
                steps: true,
            },
        ),
    )
}

/// The short report of the tasks `tasks`: a row for each task that has every
/// label of `label` and is blocked, in progress, or of high or urgent
/// priority, with its open steps under it.
pub fn show_short(db: &Store, tasks: &[Task], label: &[String], reference: bool, storypoints: bool) -> (r: Table)
    requires
        db.wf(),
    ensures
        r@ == short_report_of(db@, task_views(tasks@), texts(label@), reference, storypoints),
{
    proof {
        reveal_strlit("");
        assert(""@ =~= Seq::<char>::empty());
    }
    let param = ShowParams { label, status: "", reference, storypoints, steps: true };
    let labelled = filter_by_labels(db, tasks, label);
    let shown = filter_pressing(labelled.as_slice());
    Table {
        titles: set_title(&param),
        rows: task_rows(db, shown.as_slice(), &param),
        summary: summarize("", shown.as_slice()),
    }
}

/// The row of the completed task `t`. `when` is the text of its completion
/// date, if the date has one.
pub fn done_row(
    db: &Store,
    t: &TaskDone,
    when: Option<String>,
    reference: bool,
    storypoints: bool,
) -> (row: Vec<String>)
    requires
        db.wf(),
    ensures
        texts(row@) == done_cells(
            db@,
            t@,
            match when {
                Some(text) => Some(text@),
                None => None,
            },
            storypoints,
            reference,
        ),
{
    let attached = attached_labels(db, t.id);
    let mut row: Vec<String> = Vec::new();
    row.push(decimal(t.id));
    row.push(label_to_str(attached.as_slice()));
    row.push(t.descr.clone());
    let ghost shown_date: Seq<char> = if when is Some {
        when->0@
    } else {
        Seq::empty()
    };
    match when {
        Some(text) => {
            row.push(text);
        },
        None => {
            row.push(String::new());
        },
    }
    assert(texts(row@) =~= seq![
        decimal_of(t.id as nat),
        each_followed_by(db@.labels_of(t.id), "\n"@),
        t.descr@,
        shown_date,
    ]);
    let points = if storypoints {
        decimal(t.storypoints)
    } else {
        String::new()
    };
    let text = if reference {
        reference_cell(db, t.id)
    } else {
        String::new()
    };
    push_extra(&mut row, storypoints, reference, points, text);
    assert(extra_cells(storypoints, reference, points@, text@) =~= extra_cells(
        storypoints,
        reference,
        decimal_of(t.storypoints as nat),
        shown_reference(db@, t.id),
    ));
    row
}

/// The report of the completed tasks `tasks` at the time `now`: a row for
/// each task that was completed inside `timewindow` and has every label of
/// `label`, ended by the number of rows.
pub fn show_done(
    db: &Store,
    tasks: &[TaskDone],
    label: &[String],
    timewindow: &TimeWindow,
    reference: bool,
    storypoints: bool,
    now: i64,
) -> (r: Table)
    requires
        db.wf(),
    ensures
        r@ == done_report_of(
            db@,
            done_views(tasks@),
            texts(label@),
            *timewindow,
            now,
            reference,
            storypoints,
        ),
{
    let recent = time_window_filter(tasks, *timewindow, now);
    let shown = filter_done_by_labels(db, recent.as_slice(), label);
    let ghost all = done_views(shown@);
    let ghost cells = |t: TaskDoneView|
        done_cells(
            db@,
            t,
            formatted_time(t.completion_date, date_pattern()),
            storypoints,
            reference,
        );
    let mut rows: Vec<Vec<String>> = Vec::new();
    let mut i: usize = 0;
    assert(row_texts(rows@) =~= all.take(0).map_values(cells));
    while i < shown.len()
        invariant
            0 <= i <= shown.len(),
            db.wf(),
            all == done_views(shown@),
            cells == |t: TaskDoneView|
                done_cells(
                    db@,
                    t,
                    formatted_time(t.completion_date, date_pattern()),
                    storypoints,
                    reference,
                ),
            row_texts(rows@) == all.take(i as int).map_values(cells),
        decreases shown.len() - i,
    {
        let t = &shown[i];
        let row = done_row(db, t, date_text(t.completion_date), reference, storypoints);
        let ghost before = row_texts(rows@);
        rows.push(row);
        proof {
            assert(all[i as int] == t@);
            assert(row_texts(rows@) =~= before.push(cells(t@)));
            assert(all.take(i + 1) =~= all.take(i as int).push(t@));
            assert(all.take(i + 1).map_values(cells) =~= all.take(i as int).map_values(cells).push(
                cells(t@),
            ));
        }
        i = i + 1;
    }
    assert(all.take(i as int) =~= all);
    Table {
        titles: set_done_title(storypoints, reference),
        rows,
        summary: Summary::Count(shown.len()),
    }
}

} // verus!
