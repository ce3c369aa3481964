//! The task store: its relations, the mathematical model that contracts speak
//! of, and the conditions under which a store is well formed.

use crate::task::{Priority, Status, Step, StepView, TaskDoneView, TaskView};
use crate::text::{bounded, trim_end_of, trim_of, utf8_len};
use vstd::prelude::*;

verus! {

/// The longest description a task keeps, in bytes of UTF-8.
pub const DESCR_LIMIT: usize = 128;

/// The longest label, in bytes of UTF-8.
pub const LABEL_LIMIT: usize = 256;

/// The longest reference text, in bytes of UTF-8.
pub const REFERENCE_LIMIT: usize = 1024;

/// Why an operation on the store failed.
#[derive(Clone, Copy, Debug, PartialEq, Eq, Structural)]
pub enum StoreError {
    /// The row that the operation names does not exist, or a priority or
    /// status name is unknown, or the store has not been set up.
    NotFound,
    /// The store is already set up and was not to be cleared.
    AlreadyInitializedMismatch,
    /// The store cannot serve the request. Of the operations here those
    /// that need a new identifier or number fail so when none is left.
    StoreUnavailable,
    /// The status change is not allowed: it names the final status, or the
    /// task has reached it.
    InvalidTransition,
}

/// A row of the task relation. Dates count the seconds since the Unix epoch.
#[derive(Debug)]
pub struct TaskRow {
    pub id: u32,
    pub creation_date: i64,
    pub descr: String,
    pub priority: Priority,
    pub status: Status,
    pub refs_id: Option<u32>,
    pub storypoints: u32,
    pub completion_date: Option<i64>,
}

/// What a [`TaskRow`] holds, as mathematical values.
pub struct TaskRecord {
    pub id: u32,
    pub creation_date: i64,
    pub descr: Seq<char>,
    pub priority: Priority,
    pub status: Status,
    pub refs_id: Option<u32>,
    pub storypoints: u32,
    pub completion_date: Option<i64>,
}

impl TaskRecord {
    /// Whether the task is still to be completed.
    pub open spec fn is_open(self) -> bool {
        self.completion_date is None
    }

    /// A task has a completion date exactly when its status is `Done`, and
    /// its description is bounded.
    pub open spec fn consistent(self) -> bool {
        &&& self.completion_date is Some <==> self.status == Status::Done
        &&& utf8_len(self.descr) <= DESCR_LIMIT
    }

    /// The task as the query for open tasks hands it out.
    pub open spec fn as_task(self) -> TaskView {
        TaskView {
            id: self.id,
            descr: self.descr,
            priority: self.priority,
            status: self.status,
            storypoints: self.storypoints,
        }
    }

    /// The task as the query for completed tasks hands it out.
    pub open spec fn as_done(self) -> TaskDoneView
        recommends
            self.completion_date is Some,
    {
        TaskDoneView {
            id: self.id,
            descr: self.descr,
            completion_date: self.completion_date->0,
            storypoints: self.storypoints,
        }
    }

    /// The task, completed at `now`.
    pub open spec fn completed_at(self, now: i64) -> TaskRecord {
        TaskRecord { status: Status::Done, completion_date: Some(now), ..self }
    }
}

impl View for TaskRow {
    type V = TaskRecord;

    open spec fn view(&self) -> TaskRecord {
        TaskRecord {
            id: self.id,
            creation_date: self.creation_date,
            descr: self.descr@,
            priority: self.priority,
            status: self.status,
            refs_id: self.refs_id,
            storypoints: self.storypoints,
            completion_date: self.completion_date,
        }
    }
}

/// A row of the label relation: `label` is attached to task `todo_id`.
#[derive(Debug)]
pub struct LabelRow {
    pub todo_id: u32,
    pub label: String,
}

/// What a [`LabelRow`] holds, as mathematical values.
pub struct LabelRecord {
    pub todo_id: u32,
    pub label: Seq<char>,
}

impl View for LabelRow {
    type V = LabelRecord;

    open spec fn view(&self) -> LabelRecord {
        LabelRecord { todo_id: self.todo_id, label: self.label@ }
    }
}

/// The description that is kept for the text `descr`: without trailing white
/// space, then cut to the bound.
pub open spec fn kept_descr(descr: Seq<char>) -> Seq<char> {
    bounded(trim_end_of(descr), DESCR_LIMIT as nat)
}

/// The label that is kept for the text `label`: without white space at
/// either end, then cut to the bound.
pub open spec fn kept_label(label: Seq<char>) -> Seq<char> {
    bounded(trim_of(label), LABEL_LIMIT as nat)
}

/// The reference that is kept for the text `reference`: without trailing
/// white space, then cut to the bound.
pub open spec fn kept_reference(reference: Seq<char>) -> Seq<char> {
    bounded(trim_end_of(reference), REFERENCE_LIMIT as nat)
}

/// The row of a task that has just been created.
pub open spec fn new_task(id: u32, descr: Seq<char>, now: i64) -> TaskRecord {
    TaskRecord {
        id,
        creation_date: now,
        descr: kept_descr(descr),
        priority: Priority::Normal,
        status: Status::Todo,
        refs_id: None,
        storypoints: 0,
        completion_date: None,
    }
}

/// A new, open step.
pub open spec fn new_step(id: u32, step_id: u32, descr: Seq<char>) -> StepView {
    StepView { todo_id: id, step_id, descr, completion_date: None }
}

/// The store as a mathematical value: every relation as a sequence in the
/// order in which its rows were inserted.
pub struct Database {
    /// Whether the store has been set up.
    pub initialized: bool,
    pub tasks: Seq<TaskRecord>,
    pub steps: Seq<StepView>,
    pub labels: Seq<LabelRecord>,
    /// The reference texts; the text with identifier `k` is at index `k - 1`.
    pub refs: Seq<Seq<char>>,
    /// The identifier that the next new task gets.
    pub next_task_id: u32,
}

impl Database {
    /// The store before it is set up: it holds nothing.
    pub open spec fn blank() -> Database {
        Database {
            initialized: false,
            tasks: Seq::empty(),
            steps: Seq::empty(),
            labels: Seq::empty(),
            refs: Seq::empty(),
            next_task_id: 1,
        }
    }

    /// The store right after it is set up: every relation exists and is
    /// empty.
    pub open spec fn fresh() -> Database {
        Database { initialized: true, ..Database::blank() }
    }

    /// Task identifiers start at 1, grow along the relation and stay below
    /// the next identifier; every task is consistent and refers, if at all,
    /// to a reference text that exists.
    pub open spec fn tasks_wf(self) -> bool {
        &&& 1 <= self.next_task_id
        &&& forall|i: int|
            0 <= i < self.tasks.len() ==> {
                &&& 1 <= (#[trigger] self.tasks[i]).id < self.next_task_id
                &&& self.tasks[i].consistent()
                &&& self.tasks[i].refs_id matches Some(r) ==> 1 <= r <= self.refs.len()
            }
        &&& forall|i: int, j: int|
            0 <= i < j < self.tasks.len() ==> (#[trigger] self.tasks[i]).id < (
            #[trigger] self.tasks[j]).id
    }

    /// The steps of one task are numbered in growing order along the
    /// relation, so no task has two steps of one number.
    pub open spec fn steps_wf(self) -> bool {
        forall|i: int, j: int|
            0 <= i < j < self.steps.len() && (#[trigger] self.steps[i]).todo_id == (
            #[trigger] self.steps[j]).todo_id ==> self.steps[i].step_id < self.steps[j].step_id
    }

    /// Labels are bounded and no label is attached twice to one task.
    pub open spec fn labels_wf(self) -> bool {
        &&& forall|i: int|
            0 <= i < self.labels.len() ==> utf8_len((#[trigger] self.labels[i]).label)
                <= LABEL_LIMIT
        &&& forall|i: int, j: int|
            0 <= i < j < self.labels.len() ==> #[trigger] self.labels[i] != #[trigger] self.labels[j]
    }

    /// Reference texts are bounded and their identifiers fit the identifier
    /// type.
    pub open spec fn refs_wf(self) -> bool {
        &&& self.refs.len() < u32::MAX
        &&& forall|i: int|
            0 <= i < self.refs.len() ==> utf8_len(#[trigger] self.refs[i]) <= REFERENCE_LIMIT
    }

    /// The conditions that every operation relies on and keeps.
    pub open spec fn wf(self) -> bool {
        &&& !self.initialized ==> self == Database::blank()
        &&& self.tasks_wf()
        &&& self.steps_wf()
        &&& self.labels_wf()
        &&& self.refs_wf()
    }

    /// Whether a task with identifier `id` exists.
    pub open spec fn has_task(self, id: u32) -> bool {
        exists|i: int| 0 <= i < self.tasks.len() && (#[trigger] self.tasks[i]).id == id
    }

    /// The task with identifier `id`.
    pub open spec fn task(self, id: u32) -> TaskRecord
        recommends
            self.has_task(id),
    {
        self.tasks[choose|i: int| 0 <= i < self.tasks.len() && (#[trigger] self.tasks[i]).id == id]
    }

    /// Whether task `id` has a step numbered `step_id`.
    pub open spec fn has_step(self, id: u32, step_id: u32) -> bool {
        exists|i: int|
            0 <= i < self.steps.len() && (#[trigger] self.steps[i]).todo_id == id
                && self.steps[i].step_id == step_id
    }

    /// The step numbered `step_id` of task `id`.
    pub open spec fn step(self, id: u32, step_id: u32) -> StepView
        recommends
            self.has_step(id, step_id),
    {
        self.steps[choose|i: int|
            0 <= i < self.steps.len() && (#[trigger] self.steps[i]).todo_id == id
                && self.steps[i].step_id == step_id]
    }

    /// The steps of task `id`, open or not, in growing order of their
    /// numbers.
    pub open spec fn steps_of(self, id: u32) -> Seq<StepView> {
        self.steps.filter(|s: StepView| s.todo_id == id)
    }

    /// The open steps of task `id`, in growing order of their numbers.
    pub open spec fn open_steps_of(self, id: u32) -> Seq<StepView> {
        self.steps.filter(|s: StepView| s.todo_id == id && s.is_open())
    }

    /// The number that the next step of task `id` gets: one more than its
    /// highest step number, or 0 if it has no step.
    pub open spec fn next_step_of(self, id: u32) -> nat {
        if self.steps_of(id).len() == 0 {
            0
        } else {
            (self.steps_of(id).last().step_id + 1) as nat
        }
    }

    /// The labels of task `id` in the order in which they were attached.
    pub open spec fn labels_of(self, id: u32) -> Seq<Seq<char>> {
        self.labels.filter(|l: LabelRecord| l.todo_id == id).map_values(|l: LabelRecord| l.label)
    }

    /// Whether `label` is attached to task `id`.
    pub open spec fn has_label(self, id: u32, label: Seq<char>) -> bool {
        self.labels.contains(LabelRecord { todo_id: id, label })
    }

    /// The reference text of task `id`: empty if the task refers to none.
    pub open spec fn reference_of(self, id: u32) -> Seq<char>
        recommends
            self.has_task(id),
    {
        match self.task(id).refs_id {
            Some(r) => self.refs[r - 1],
            None => Seq::empty(),
        }
    }

    /// The open tasks of priority `priority`, oldest first.
    pub open spec fn open_tasks_at(self, priority: Priority) -> Seq<TaskView> {
        self.tasks.filter(|t: TaskRecord| t.is_open() && t.priority == priority).map_values(
            |t: TaskRecord| t.as_task(),
        )
    }

    /// The open tasks, most urgent first; among tasks of one priority the
    /// oldest first.
    pub open spec fn open_tasks(self) -> Seq<TaskView> {
        self.open_tasks_at(Priority::Urgent) + self.open_tasks_at(Priority::High)
            + self.open_tasks_at(Priority::Normal) + self.open_tasks_at(Priority::Low)
            + self.open_tasks_at(Priority::Miserable)
    }

    /// The completed tasks in the order of the task relation.
    pub open spec fn done_tasks(self) -> Seq<TaskDoneView> {
        self.tasks.filter(|t: TaskRecord| !t.is_open()).map_values(|t: TaskRecord| t.as_done())
    }

    /// The store with `change` applied to the task `id`; every other row
    /// stays.
    pub open spec fn with_task_changed(
        self,
        id: u32,
        change: spec_fn(TaskRecord) -> TaskRecord,
    ) -> Database {
        Database {
            tasks: self.tasks.map_values(
                |t: TaskRecord|
                    if t.id == id {
                        change(t)
                    } else {
                        t
                    },
            ),
            ..self
        }
    }

    /// The store with a new task of description `descr`, created at `now`.
    pub open spec fn with_new_task(self, descr: Seq<char>, now: i64) -> Database {
        Database {
            tasks: self.tasks.push(new_task(self.next_task_id, descr, now)),
            next_task_id: (self.next_task_id + 1) as u32,
            ..self
        }
    }

    /// The store with the task `id` at the priority `priority`.
    pub open spec fn with_priority(self, id: u32, priority: Priority) -> Database {
        self.with_task_changed(id, |t: TaskRecord| TaskRecord { priority, ..t })
    }

    /// The store with the priority of the task `id` one rank closer to
    /// `Urgent`.
    pub open spec fn with_raised_priority(self, id: u32) -> Database {
        self.with_task_changed(
            id,
            |t: TaskRecord| TaskRecord { priority: t.priority.raised_of(), ..t },
        )
    }

    /// The store with the task `id` at the status `status`.
    pub open spec fn with_status(self, id: u32, status: Status) -> Database {
        self.with_task_changed(id, |t: TaskRecord| TaskRecord { status, ..t })
    }

    /// The store with `descr` as the description of the task `id`.
    pub open spec fn with_descr(self, id: u32, descr: Seq<char>) -> Database {
        self.with_task_changed(id, |t: TaskRecord| TaskRecord { descr, ..t })
    }

    /// The store with `storypoints` as the story points of the task `id`.
    pub open spec fn with_storypoints(self, id: u32, storypoints: u32) -> Database {
        self.with_task_changed(id, |t: TaskRecord| TaskRecord { storypoints, ..t })
    }

    /// The store with `text` recorded as a new reference text.
    pub open spec fn with_reference_text(self, text: Seq<char>) -> Database {
        Database { refs: self.refs.push(text), ..self }
    }

    /// The store with `text` recorded as a new reference text, to which the
    /// task `id` refers.
    pub open spec fn with_reference(self, id: u32, text: Seq<char>) -> Database {
        self.with_reference_text(text).with_task_changed(
            id,
            |t: TaskRecord| TaskRecord { refs_id: Some((self.refs.len() + 1) as u32), ..t },
        )
    }

    /// The store with the task `id` completed at `now`, each of its open
    /// steps included.
    pub open spec fn with_task_completed(self, id: u32, now: i64) -> Database {
        self.with_task_changed(id, |t: TaskRecord| t.completed_at(now)).with_steps_completed(
            id,
            now,
        )
    }

    /// The store with a new open step of description `descr` for the task
    /// `id`.
    pub open spec fn with_new_step(self, id: u32, descr: Seq<char>) -> Database {
        Database {
            steps: self.steps.push(new_step(id, self.next_step_of(id) as u32, descr)),
            ..self
        }
    }

    /// The store with every open step of task `id` completed at `now`.
    pub open spec fn with_steps_completed(self, id: u32, now: i64) -> Database {
        Database {
            steps: self.steps.map_values(
                |s: StepView|
                    if s.todo_id == id && s.is_open() {
                        s.completed_at(now)
                    } else {
                        s
                    },
            ),
            ..self
        }
    }

    /// The store with the step `step_id` of task `id` completed at `now`.
    pub open spec fn with_step_completed(self, id: u32, step_id: u32, now: i64) -> Database {
        Database {
            steps: self.steps.map_values(
                |s: StepView|
                    if s.todo_id == id && s.step_id == step_id {
                        s.completed_at(now)
                    } else {
                        s
                    },
            ),
            ..self
        }
    }

    /// The store without steps of task `id`: without all of them, or with
    /// `only` given, without the one of that number.
    pub open spec fn without_steps(self, id: u32, only: Option<u32>) -> Database {
        Database {
            steps: self.steps.filter(
                |s: StepView| !(s.todo_id == id && (only is None || only == Some(s.step_id))),
            ),
            ..self
        }
    }

    /// The store without the steps of task `id`.
    pub open spec fn without_steps_of(self, id: u32) -> Database {
        self.without_steps(id, None)
    }

    /// The store without the step `step_id` of task `id`.
    pub open spec fn without_step(self, id: u32, step_id: u32) -> Database {
        self.without_steps(id, Some(step_id))
    }

    /// The store without the labels of task `id`.
    pub open spec fn without_labels_of(self, id: u32) -> Database {
        Database { labels: self.labels.filter(|l: LabelRecord| l.todo_id != id), ..self }
    }

    /// The store without the row of task `id`.
    pub open spec fn without_task(self, id: u32) -> Database {
        Database { tasks: self.tasks.filter(|t: TaskRecord| t.id != id), ..self }
    }

    /// The store with `label` attached to task `id`; nothing changes if it
    /// is attached already.
    pub open spec fn with_label(self, id: u32, label: Seq<char>) -> Database {
        if self.has_label(id, label) {
            self
        } else {
            Database { labels: self.labels.push(LabelRecord { todo_id: id, label }), ..self }
        }
    }
}

/// The store with each of `labels` attached to task `id`, in order, each in
/// the form in which it is kept. A label that is attached already is passed
/// over.
pub open spec fn with_labels(d: Database, id: u32, labels: Seq<Seq<char>>) -> Database
    decreases labels.len(),
{
    if labels.len() == 0 {
        d
    } else {
        with_labels(d, id, labels.drop_last()).with_label(id, kept_label(labels.last()))
    }
}

/// In a well formed store a task has a completion date exactly when its
/// status is `Done`.
pub proof fn lemma_completed_iff_done(d: Database, id: u32)
    requires
        d.wf(),
        d.has_task(id),
    ensures
        d.task(id).completion_date is Some <==> d.task(id).status == Status::Done,
        forall|i: int|
            0 <= i < d.tasks.len() ==> ((#[trigger] d.tasks[i]).completion_date is Some
                <==> d.tasks[i].status == Status::Done),
{
}

/// A task without steps gets the step number 0 next, and each step that is
/// added moves the next number up by one.
pub proof fn lemma_step_numbers_grow(d: Database, id: u32, descr: Seq<char>)
    requires
        d.next_step_of(id) <= u32::MAX,
    ensures
        d.steps_of(id).len() == 0 ==> d.next_step_of(id) == 0,
        d.with_new_step(id, descr).next_step_of(id) == d.next_step_of(id) + 1,
{
    reveal(Seq::filter);
    let mine = |s: StepView| s.todo_id == id;
    let added = new_step(id, d.next_step_of(id) as u32, descr);
    assert(d.steps.push(added).drop_last() =~= d.steps);
    assert(d.with_new_step(id, descr).steps_of(id) =~= d.steps_of(id).push(added));
}

/// Completing steps leaves the numbers of the steps as they are: the number
/// that a task's next step gets does not depend on which steps are open.
pub proof fn lemma_completion_keeps_step_numbers(
    d: Database,
    done: u32,
    step_id: u32,
    now: i64,
    id: u32,
)
    ensures
        d.with_step_completed(done, step_id, now).next_step_of(id) == d.next_step_of(id),
        d.with_steps_completed(done, now).next_step_of(id) == d.next_step_of(id),
{
    let mine = |s: StepView| s.todo_id == id;
    let one = |s: StepView|
        if s.todo_id == done && s.step_id == step_id {
            s.completed_at(now)
        } else {
            s
        };
    let all = |s: StepView|
        if s.todo_id == done && s.is_open() {
            s.completed_at(now)
        } else {
            s
        };
    crate::seqs::lemma_filter_of_changed(d.steps, one, mine);
    crate::seqs::lemma_filter_of_changed(d.steps, all, mine);
    let kept = d.steps_of(id);
    if kept.len() > 0 {
        assert(kept.map_values(one).last().step_id == kept.last().step_id);
        assert(kept.map_values(all).last().step_id == kept.last().step_id);
    }
}

/// The first step of a task without steps gets the number 0 and the second
/// the number 1, whether or not the first has been completed by then.
pub proof fn lemma_first_two_steps(d: Database, id: u32, first: Seq<char>, now: i64)
    requires
        d.steps_of(id).len() == 0,
    ensures
        d.next_step_of(id) == 0,
        d.with_new_step(id, first).next_step_of(id) == 1,
        d.with_new_step(id, first).with_step_completed(id, 0, now).next_step_of(id) == 1,
        d.with_new_step(id, first).with_steps_completed(id, now).next_step_of(id) == 1,
{
    lemma_step_numbers_grow(d, id, first);
    lemma_completion_keeps_step_numbers(d.with_new_step(id, first), id, 0, now, id);
}

/// Once every open step of a task is completed the task has no open step.
pub proof fn lemma_no_open_step_left(d: Database, id: u32, now: i64)
    ensures
        d.with_steps_completed(id, now).open_steps_of(id) == Seq::<StepView>::empty(),
        d.with_task_completed(id, now).open_steps_of(id) == Seq::<StepView>::empty(),
{
    let after = d.with_steps_completed(id, now);
    crate::seqs::lemma_filter_keeps_none(after.steps, |s: StepView| s.todo_id == id && s.is_open());
    let other = d.with_task_changed(id, |t: TaskRecord| t.completed_at(now)).with_steps_completed(
        id,
        now,
    );
    assert(other.steps == after.steps);
}

/// Attaching labels changes the label relation only.
pub proof fn lemma_with_labels_frame(d: Database, id: u32, labels: Seq<Seq<char>>)
    ensures
        with_labels(d, id, labels) == (Database { labels: with_labels(d, id, labels).labels, ..d }),
    decreases labels.len(),
{
    if labels.len() > 0 {
        lemma_with_labels_frame(d, id, labels.drop_last());
    }
}

/// Two stores whose task relations hold the same identifiers at the same
/// positions hold the same tasks.
pub proof fn lemma_same_ids_same_tasks(d: Database, e: Database, id: u32)
    requires
        d.tasks.len() == e.tasks.len(),
        forall|i: int| 0 <= i < d.tasks.len() ==> (#[trigger] d.tasks[i]).id == e.tasks[i].id,
    ensures
        d.has_task(id) == e.has_task(id),
{
    if d.has_task(id) {
        let i = choose|i: int| 0 <= i < d.tasks.len() && (#[trigger] d.tasks[i]).id == id;
        assert(e.tasks[i].id == id);
    }
    if e.has_task(id) {
        let i = choose|i: int| 0 <= i < e.tasks.len() && (#[trigger] e.tasks[i]).id == id;
        assert(d.tasks[i].id == id);
    }
}

/// The task store.
///
/// The fields are the relations themselves. Every operation asks for a well
/// formed store and leaves one; [`Store::new`] makes one, and
/// [`Store::is_wf`] tells of any store whether it is one.
#[derive(Debug)]
pub struct Store {
    pub initialized: bool,
    pub tasks: Vec<TaskRow>,
    pub steps: Vec<Step>,
    pub labels: Vec<LabelRow>,
    pub refs: Vec<String>,
    pub next_task_id: u32,
}

impl View for Store {
    type V = Database;

    open spec fn view(&self) -> Database {
        Database {
            initialized: self.initialized,
            tasks: self.tasks@.map_values(|t: TaskRow| t@),
            steps: self.steps@.map_values(|s: Step| s@),
            labels: self.labels@.map_values(|l: LabelRow| l@),
            refs: self.refs@.map_values(|r: String| r@),
            next_task_id: self.next_task_id,
        }
    }
}

impl Store {
    /// Whether the store is well formed.
    pub open spec fn wf(&self) -> bool {
        self@.wf()
    }

    /// A store that has not been set up.
    pub fn new() -> (db: Store)
        ensures
            db.wf(),
            db@ == Database::blank(),
    {
        let db = Store {
            initialized: false,
            tasks: Vec::new(),
            steps: Vec::new(),
            labels: Vec::new(),
            refs: Vec::new(),
            next_task_id: 1,
        };
        assert(db@.tasks =~= Seq::empty());
        assert(db@.steps =~= Seq::empty());
        assert(db@.labels =~= Seq::empty());
        assert(db@.refs =~= Seq::empty());
        db
    }

    /// Tells whether the task relation is in order: see
    /// [`Database::tasks_wf`].
    fn tasks_in_order(&self) -> (r: bool)
        ensures
            r == self@.tasks_wf(),
    {
        if self.next_task_id < 1 {
            return false;
        }
        let mut i: usize = 0;
        while i < self.tasks.len()
            invariant
                0 <= i <= self.tasks.len(),
                1 <= self.next_task_id,
                forall|k: int|
                    0 <= k < i ==> {
                        &&& 1 <= (#[trigger] self@.tasks[k]).id < self.next_task_id
                        &&& self@.tasks[k].consistent()
                        &&& self@.tasks[k].refs_id matches Some(r) ==> 1 <= r <= self@.refs.len()
                    },
                forall|a: int, b: int|
                    0 <= a < b < i ==> (#[trigger] self@.tasks[a]).id < (#[trigger] self@.tasks[b]).id,
            decreases self.tasks.len() - i,
        {
            let t = &self.tasks[i];
            assert(self@.tasks[i as int] == t@);
            let dated: bool = t.completion_date.is_some();
            let done: bool = t.status == Status::Done;
            let referred: bool = match t.refs_id {
                Some(r) => 1 <= r && r as usize <= self.refs.len(),
                None => true,
            };
            if t.id < 1 || t.id >= self.next_task_id || dated != done || t.descr.as_str().as_bytes().len()
                > DESCR_LIMIT || !referred {
                return false;
            }
            if i > 0 {
                assert(self@.tasks[i - 1] == self.tasks[i - 1]@);
                if self.tasks[i - 1].id >= t.id {
                    return false;
                }
                assert forall|a: int| 0 <= a < i implies (#[trigger] self@.tasks[a]).id < t.id by {
                    if a < i - 1 {
                        assert(self@.tasks[a].id < self@.tasks[i - 1].id);
                    }
                }
            }
            i = i + 1;
        }
        true
    }

    /// Tells whether the step relation is in order: see
    /// [`Database::steps_wf`].
    fn steps_in_order(&self) -> (r: bool)
        ensures
            r == self@.steps_wf(),
    {
        let mut j: usize = 0;
        while j < self.steps.len()
            invariant
                0 <= j <= self.steps.len(),
                forall|a: int, b: int|
                    0 <= a < b < j && (#[trigger] self@.steps[a]).todo_id == (
                    #[trigger] self@.steps[b]).todo_id ==> self@.steps[a].step_id
                        < self@.steps[b].step_id,
            decreases self.steps.len() - j,
        {
            let mut i: usize = 0;
            while i < j
                invariant
                    0 <= i <= j < self.steps.len(),
                    forall|a: int|
                        0 <= a < i && (#[trigger] self@.steps[a]).todo_id == self@.steps[j as int].todo_id
                            ==> self@.steps[a].step_id < self@.steps[j as int].step_id,
                decreases j - i,
            {
                assert(self@.steps[i as int] == self.steps[i as int]@);
                assert(self@.steps[j as int] == self.steps[j as int]@);
                if self.steps[i].todo_id == self.steps[j].todo_id && self.steps[i].step_id
                    >= self.steps[j].step_id {
                    return false;
                }
                i = i + 1;
            }
            j = j + 1;
        }
        true
    }

    /// Tells whether the label relation is in order: see
    /// [`Database::labels_wf`].
    fn labels_in_order(&self) -> (r: bool)
        ensures
            r == self@.labels_wf(),
    {
        let mut j: usize = 0;
        while j < self.labels.len()
            invariant
                0 <= j <= self.labels.len(),
                forall|a: int|
                    0 <= a < j ==> utf8_len((#[trigger] self@.labels[a]).label) <= LABEL_LIMIT,
                forall|a: int, b: int|
                    0 <= a < b < j ==> #[trigger] self@.labels[a] != #[trigger] self@.labels[b],
            decreases self.labels.len() - j,
        {
            assert(self@.labels[j as int] == self.labels[j as int]@);
            if self.labels[j].label.as_str().as_bytes().len() > LABEL_LIMIT {
                return false;
            }
            let mut i: usize = 0;
            while i < j
                invariant
                    0 <= i <= j < self.labels.len(),
                    forall|a: int| 0 <= a < i ==> #[trigger] self@.labels[a] != self@.labels[j as int],
                decreases j - i,
            {
                assert(self@.labels[i as int] == self.labels[i as int]@);
                assert(self@.labels[j as int] == self.labels[j as int]@);
                if self.labels[i].todo_id == self.labels[j].todo_id && self.labels[i].label
                    == self.labels[j].label {
                    assert(self@.labels[i as int] == self@.labels[j as int]);
                    return false;
                }
                i = i + 1;
            }
            j = j + 1;
        }
        true
    }

    /// Tells whether the reference relation is in order: see
    /// [`Database::refs_wf`].
    fn refs_in_order(&self) -> (r: bool)
        ensures
            r == self@.refs_wf(),
    {
        if self.refs.len() >= u32::MAX as usize {
            return false;
        }
        let mut i: usize = 0;
        while i < self.refs.len()
            invariant
                0 <= i <= self.refs.len(),
                forall|a: int| 0 <= a < i ==> utf8_len(#[trigger] self@.refs[a]) <= REFERENCE_LIMIT,
            decreases self.refs.len() - i,
        {
            assert(self@.refs[i as int] == self.refs[i as int]@);
            if self.refs[i].as_str().as_bytes().len() > REFERENCE_LIMIT {
                return false;
            }
            i = i + 1;
        }
        true
    }

    /// Tells whether the store is well formed. A store that was put
    /// together from rows read elsewhere is to pass this before it is used.
    pub fn is_wf(&self) -> (r: bool)
        ensures
            r == self.wf(),
    {
        if !self.initialized {
            let blank: bool = self.tasks.len() == 0 && self.steps.len() == 0 && self.labels.len()
                == 0 && self.refs.len() == 0 && self.next_task_id == 1;
            proof {
                if blank {
                    assert(self@.tasks =~= Seq::empty());
                    assert(self@.steps =~= Seq::empty());
                    assert(self@.labels =~= Seq::empty());
                    assert(self@.refs =~= Seq::empty());
                } else {
                    assert(self@.tasks.len() == self.tasks.len());
                    assert(self@.steps.len() == self.steps.len());
                    assert(self@.labels.len() == self.labels.len());
                    assert(self@.refs.len() == self.refs.len());
                    assert(Database::blank().tasks.len() == 0);
                    assert(Database::blank().steps.len() == 0);
                    assert(Database::blank().labels.len() == 0);
                    assert(Database::blank().refs.len() == 0);
                }
            }
            return blank;
        }
        self.tasks_in_order() && self.steps_in_order() && self.labels_in_order()
            && self.refs_in_order()
    }

    /// The store that holds the given rows, if they make a well formed
    /// store. It is set up. The identifier of the next task is
    /// `next_task_id` where given, and else follows that of the last task.
    pub fn from_rows(
        tasks: Vec<TaskRow>,
        steps: Vec<Step>,
        labels: Vec<LabelRow>,
        refs: Vec<String>,
        next_task_id: Option<u32>,
    ) -> (r: Option<Store>)
        ensures
            ({
                let given = Store {
                    initialized: true,
                    tasks,
                    steps,
                    labels,
                    refs,
                    next_task_id: match next_task_id {
                        Some(next) => next,
                        None => if tasks@.len() == 0 {
                            1
                        } else if tasks@.last().id < u32::MAX {
                            (tasks@.last().id + 1) as u32
                        } else {
                            u32::MAX
                        },
                    },
                };
                match r {
                    Some(db) => db == given && db.wf(),
                    None => !given.wf(),
                }
            }),
    {
        let next: u32 = match next_task_id {
            Some(next) => next,
            None => if tasks.len() == 0 {
                1
            } else if tasks[tasks.len() - 1].id < u32::MAX {
                tasks[tasks.len() - 1].id + 1
            } else {
                u32::MAX
            },
        };
        let db = Store { initialized: true, tasks, steps, labels, refs, next_task_id: next };
        if db.is_wf() {
            Some(db)
        } else {
            None
        }
    }

    /// The position of the task `id` in the task relation.
    pub fn find_task(&self, id: u32) -> (r: Option<usize>)
        ensures
            r is Some <==> self@.has_task(id),
            r matches Some(i) ==> i < self.tasks.len() && self.tasks[i as int].id == id,
    {
        let mut i: usize = 0;
        while i < self.tasks.len()
            invariant
                0 <= i <= self.tasks.len(),
                forall|k: int| 0 <= k < i ==> (#[trigger] self.tasks[k]).id != id,
            decreases self.tasks.len() - i,
        {
            if self.tasks[i].id == id {
                assert(self@.tasks[i as int].id == id);
                return Some(i);
            }
            i = i + 1;
        }
        assert forall|k: int| 0 <= k < self@.tasks.len() implies (#[trigger] self@.tasks[k]).id
            != id by {
            assert(self@.tasks[k] == self.tasks[k]@);
        }
        None
    }

    /// The position of the step `step_id` of task `id` in the step relation.
    pub fn find_step(&self, id: u32, step_id: u32) -> (r: Option<usize>)
        ensures
            r is Some <==> self@.has_step(id, step_id),
            r matches Some(i) ==> i < self.steps.len() && self.steps[i as int].todo_id == id
                && self.steps[i as int].step_id == step_id,
    {
        let mut i: usize = 0;
        while i < self.steps.len()
            invariant
                0 <= i <= self.steps.len(),
                forall|k: int|
                    0 <= k < i ==> !((#[trigger] self.steps[k]).todo_id == id
                        && self.steps[k].step_id == step_id),
            decreases self.steps.len() - i,
        {
            if self.steps[i].todo_id == id && self.steps[i].step_id == step_id {
                assert(self@.steps[i as int].todo_id == id);
                return Some(i);
            }
            i = i + 1;
        }
        assert forall|k: int| 0 <= k < self@.steps.len() implies !((#[trigger] self@.steps[k]).todo_id
            == id && self@.steps[k].step_id == step_id) by {
            assert(self@.steps[k] == self.steps[k]@);
        }
        None
    }
}

} // verus!
