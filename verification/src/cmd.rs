//! Carrying out commands on the store.

use crate::cli_opt::{Cmd, DbCmd, ShowCmd, ShowCommonOpt, ShowOpt, StepCmd, TaskCmd};
use crate::db::{
    add_labels, add_step, complete_step, complete_task, delete_step, get_done_tasks,
    get_open_tasks, increase_priority, init, is_done_report, lemma_done_report_unique,
};
use crate::lifecycle::{
    block_task, create_task, created, descr_to_string, edit_task, edited, failed, move_error,
    opt_text, remove_task, start_task, started, Failure, Field,
};
use crate::report::{
    done_report_of, report_of, short_report_of, show1task, show2, show_done, show_short,
    ShowParamsView, Table, TableView,
};
use crate::store::{with_labels, Database, Store, StoreError};
use crate::task::{done_views, Status, TaskDoneView, TaskView, TimeWindow};
use crate::text::{each_followed_by, texts};
use vstd::prelude::*;

verus! {

/// What a command that changes the store has done.
#[derive(Clone, Copy, Debug, PartialEq, Eq, Structural)]
pub enum Outcome {
    /// The change is made.
    Applied,
    /// The command named nothing to change.
    NothingToDo,
    /// A task is created, with this identifier.
    TaskCreated(u32),
    /// A step is created, with this number.
    StepCreated(u32),
}

/// Whether the task `id` can change its status: it exists and is not done.
pub open spec fn movable(d: Database, id: u32) -> bool {
    d.has_task(id) && d.task(id).status != Status::Done
}

/// Sets the store up. With `force` whatever it held is dropped first;
/// without it a store that is already set up is refused.
pub fn cmd_dbinit(db: &mut Store, force: bool) -> (r: Result<(), StoreError>)
    requires
        old(db).wf(),
    ensures
        final(db).wf(),
        r is Ok <==> force || !old(db)@.initialized,
        r is Ok ==> final(db)@ == Database::fresh(),
        r is Err ==> r == Err::<(), _>(StoreError::AlreadyInitializedMismatch) && final(db)@ == old(
            db,
        )@,
{
    init(db, force)
}

/// Creates the task that `new_task` describes and returns its identifier.
/// A command other than `New` changes nothing and returns `None`.
pub fn cmd_task_new(new_task: TaskCmd, db: &mut Store, now: i64) -> (r: Result<
    Option<u32>,
    Failure,
>)
    requires
        old(db).wf(),
    ensures
        final(db).wf(),
        match new_task {
            TaskCmd::New { labels, reference, priority, storypoint, descr } => {
                let outcome = created(
                    old(db)@,
                    texts(descr@),
                    texts(labels@),
                    opt_text(priority),
                    storypoint,
                    opt_text(reference),
                    now,
                );
                final(db)@ == outcome.0 && r == match outcome.1 {
                    Ok(id) => Ok::<Option<u32>, Failure>(Some(id)),
                    Err(f) => Err(f),
                }
            },
            _ => final(db)@ == old(db)@ && r == Ok::<Option<u32>, Failure>(None),
        },
{
    match new_task {
        TaskCmd::New { labels, reference, priority, storypoint, descr } => {
            match create_task(
                db,
                descr.as_slice(),
                labels.as_slice(),
                &priority,
                storypoint,
                &reference,
                now,
            ) {
                Ok(id) => Ok(Some(id)),
                Err(f) => Err(f),
            }
        },
        _ => Ok(None),
    }
}

/// Whether an edit names no attribute to change.
pub open spec fn names_nothing(
    descr: Seq<String>,
    priority: Option<String>,
    storypoint: Option<u32>,
    reference: Option<String>,
    status: Option<String>,
) -> bool {
    descr.len() == 0 && priority is None && storypoint is None && reference is None
        && status is None
}

/// Makes the changes that `edit_task` describes. An edit that names no
/// attribute, and a command other than `Edit`, change nothing.
pub fn cmd_task_edit(edit: TaskCmd, db: &mut Store) -> (r: Result<Outcome, Failure>)
    requires
        old(db).wf(),
    ensures
        final(db).wf(),
        match edit {
            TaskCmd::Edit { task, priority, status, storypoint, reference, descr } => {
                let outcome = edited(
                    old(db)@,
                    task,
                    if descr@.len() > 0 {
                        Some(each_followed_by(texts(descr@), " "@))
                    } else {
                        None
                    },
                    opt_text(priority),
                    storypoint,
                    opt_text(reference),
                    opt_text(status),
                );
                final(db)@ == outcome.0 && r == match outcome.1 {
                    Ok(()) => Ok::<Outcome, Failure>(
                        if names_nothing(descr@, priority, storypoint, reference, status) {
                            Outcome::NothingToDo
                        } else {
                            Outcome::Applied
                        },
                    ),
                    Err(f) => Err(f),
                }
            },
            _ => final(db)@ == old(db)@ && r == Ok::<Outcome, Failure>(Outcome::NothingToDo),
        },
{
    match edit {
        TaskCmd::Edit { task, priority, status, storypoint, reference, descr } => {
            let nothing: bool = priority.is_none() && status.is_none() && descr.len() == 0
                && storypoint.is_none() && reference.is_none();
            match edit_task(db, task, descr.as_slice(), &priority, storypoint, &reference, &status) {
                Ok(()) => Ok(
                    if nothing {
                        Outcome::NothingToDo
                    } else {
                        Outcome::Applied
                    },
                ),
                Err(f) => Err(f),
            }
        },
        _ => Ok(Outcome::NothingToDo),
    }
}

/// The store and the outcome after the task command `cmd` at the time `now`.
pub open spec fn task_outcome(d: Database, cmd: TaskCmd, now: i64) -> (
    Database,
    Result<Outcome, Failure>,
) {
    match cmd {
        TaskCmd::New { labels, reference, priority, storypoint, descr } => {
            let outcome = created(
                d,
                texts(descr@),
                texts(labels@),
                opt_text(priority),
                storypoint,
                opt_text(reference),
                now,
            );
            (
                outcome.0,
                match outcome.1 {
                    Ok(id) => Ok(Outcome::TaskCreated(id)),
                    Err(f) => Err(f),
                },
            )
        },
        TaskCmd::AddLabel { labels, task } => {
            if labels@.len() == 0 {
                (d, Ok(Outcome::NothingToDo))
            } else if d.initialized {
                (with_labels(d, task, texts(labels@)), Ok(Outcome::Applied))
            } else {
                (d, failed(Field::Labels, StoreError::NotFound))
            }
        },
        TaskCmd::Edit { task, priority, status, storypoint, reference, descr } => {
            let outcome = edited(
                d,
                task,
                if descr@.len() > 0 {
                    Some(each_followed_by(texts(descr@), " "@))
                } else {
                    None
                },
                opt_text(priority),
                storypoint,
                opt_text(reference),
                opt_text(status),
            );
            (
                outcome.0,
                match outcome.1 {
                    Ok(()) => Ok(
                        if names_nothing(descr@, priority, storypoint, reference, status) {
                            Outcome::NothingToDo
                        } else {
                            Outcome::Applied
                        },
                    ),
                    Err(f) => Err(f),
                },
            )
        },
        TaskCmd::Done(t) => {
            if movable(d, t.task_id) {
                (d.with_task_completed(t.task_id, now), Ok(Outcome::Applied))
            } else {
                (d, failed(Field::Status, move_error(d, t.task_id)))
            }
        },
        TaskCmd::Start(t) => {
            if movable(d, t.task_id) {
                (started(d, t.task_id, now), Ok(Outcome::Applied))
            } else {
                (d, failed(Field::Status, move_error(d, t.task_id)))
            }
        },
        TaskCmd::Block(t) => {
            if movable(d, t.task_id) {
                (d.with_status(t.task_id, Status::Block), Ok(Outcome::Applied))
            } else {
                (d, failed(Field::Status, move_error(d, t.task_id)))
            }
        },
        TaskCmd::Delete(t) => (
            d.without_steps_of(t.task_id).without_task(t.task_id).without_labels_of(t.task_id),
            if d.has_task(t.task_id) {
                Ok(Outcome::Applied)
            } else {
                failed(Field::Task, StoreError::NotFound)
            },
        ),
        TaskCmd::Prio(t) => {
            if d.has_task(t.task_id) {
                (d.with_raised_priority(t.task_id), Ok(Outcome::Applied))
            } else {
                (d, failed(Field::Priority, StoreError::NotFound))
            }
        },
    }
}

/// Carries out the task command `cmd` at the time `now`.
pub fn run_task(db: &mut Store, cmd: TaskCmd, now: i64) -> (r: Result<Outcome, Failure>)
    requires
        old(db).wf(),
    ensures
        final(db).wf(),
        (final(db)@, r) == task_outcome(old(db)@, cmd, now),
{
    match cmd {
        TaskCmd::New { .. } => {
            match cmd_task_new(cmd, db, now) {
                Ok(Some(id)) => Ok(Outcome::TaskCreated(id)),
                Ok(None) => Ok(Outcome::NothingToDo),
                Err(f) => Err(f),
            }
        },
        TaskCmd::AddLabel { labels, task } => {
            if labels.len() == 0 {
                Ok(Outcome::NothingToDo)
            } else {
                match add_labels(db, task, labels.as_slice()) {
                    Ok(()) => Ok(Outcome::Applied),
                    Err(error) => Err(Failure { field: Field::Labels, error }),
                }
            }
        },
        TaskCmd::Edit { .. } => cmd_task_edit(cmd, db),
        TaskCmd::Done(t) => {
            match complete_task(db, t.task_id, now) {
                Ok(()) => Ok(Outcome::Applied),
                Err(error) => Err(Failure { field: Field::Status, error }),
            }
        },
        TaskCmd::Start(t) => {
            match start_task(db, t.task_id, now) {
                Ok(()) => Ok(Outcome::Applied),
                Err(error) => Err(Failure { field: Field::Status, error }),
            }
        },
        TaskCmd::Block(t) => {
            match block_task(db, t.task_id) {
                Ok(()) => Ok(Outcome::Applied),
                Err(error) => Err(Failure { field: Field::Status, error }),
            }
        },
        TaskCmd::Delete(t) => {
            match remove_task(db, t.task_id) {
                Ok(()) => Ok(Outcome::Applied),
                Err(error) => Err(Failure { field: Field::Task, error }),
            }
        },
        TaskCmd::Prio(t) => {
            match increase_priority(db, t.task_id) {
                Ok(()) => Ok(Outcome::Applied),
                Err(error) => Err(Failure { field: Field::Priority, error }),
            }
        },
    }
}

/// The store and the outcome after the step command `cmd` at the time `now`.
pub open spec fn step_outcome(d: Database, cmd: StepCmd, now: i64) -> (
    Database,
    Result<Outcome, Failure>,
) {
    match cmd {
        StepCmd::Add { task_id, descr } => {
            if !d.initialized {
                (d, failed(Field::Step, StoreError::NotFound))
            } else if d.next_step_of(task_id) > u32::MAX {
                (d, failed(Field::Step, StoreError::StoreUnavailable))
            } else {
                (
                    d.with_new_step(task_id, each_followed_by(texts(descr@), " "@)),
                    Ok(Outcome::StepCreated(d.next_step_of(task_id) as u32)),
                )
            }
        },
        StepCmd::Done { task_id, step_id } => {
            if d.has_step(task_id, step_id) {
                (d.with_step_completed(task_id, step_id, now), Ok(Outcome::Applied))
            } else {
                (d, failed(Field::Step, StoreError::NotFound))
            }
        },
        StepCmd::Delete { task_id, step_id } => {
            if d.has_step(task_id, step_id) {
                (d.without_step(task_id, step_id), Ok(Outcome::Applied))
            } else {
                (d, failed(Field::Step, StoreError::NotFound))
            }
        },
    }
}

/// Carries out the step command `cmd` at the time `now`.
pub fn run_step(db: &mut Store, cmd: StepCmd, now: i64) -> (r: Result<Outcome, Failure>)
    requires
        old(db).wf(),
    ensures
        final(db).wf(),
        (final(db)@, r) == step_outcome(old(db)@, cmd, now),
{
    match cmd {
        StepCmd::Add { task_id, descr } => {
            let text = descr_to_string(descr.as_slice());
            match add_step(db, task_id, text.as_str()) {
                Ok(step_id) => Ok(Outcome::StepCreated(step_id)),
                Err(error) => Err(Failure { field: Field::Step, error }),
            }
        },
        StepCmd::Done { task_id, step_id } => {
            match complete_step(db, task_id, step_id, now) {
                Ok(()) => Ok(Outcome::Applied),
                Err(error) => Err(Failure { field: Field::Step, error }),
            }
        },
        StepCmd::Delete { task_id, step_id } => {
            match delete_step(db, task_id, step_id) {
                Ok(()) => Ok(Outcome::Applied),
                Err(error) => Err(Failure { field: Field::Step, error }),
            }
        },
    }
}

/// The parameters of a report under the options `outer`, given with the
/// command, and `inner`, given with the kind of report: what either asks to
/// show is shown, and the labels of both are required.
pub open spec fn params_of(
    outer: ShowCommonOpt,
    inner: Option<ShowCommonOpt>,
    status: Seq<char>,
    steps: bool,
) -> ShowParamsView {
    ShowParamsView {
        label: texts(outer.labels@) + match inner {
            Some(o) => texts(o.labels@),
            None => Seq::empty(),
        },
        reference: outer.reference || (inner matches Some(o) && o.reference),
        status,
        storypoints: outer.hidden || (inner matches Some(o) && o.hidden),
        steps,
    }
}

/// The options given with the kind of report.
pub open spec fn inner_opts(cmd: Option<ShowCmd>) -> Option<ShowCommonOpt> {
    match cmd {
        None => None,
        Some(ShowCmd::All { show_opts }) => Some(show_opts),
        Some(ShowCmd::Short { show_opts }) => Some(show_opts),
        Some(ShowCmd::Backlog { show_opts }) => Some(show_opts),
        Some(ShowCmd::Work { show_opts }) => Some(show_opts),
        Some(ShowCmd::Done { show_opts, time_window }) => Some(show_opts),
    }
}

/// The report that the command `opt` asks for at the time `now`, over the
/// store `d` of which `done` is the report of completed tasks.
///
/// With a task named it is the report of that task alone, if it is open.
/// Else the kind of report decides: all open tasks, unless another kind is
/// given; the short report; the tasks to do; the tasks in progress, with
/// their steps; the tasks completed inside a time window, `Today` unless
/// given.
pub open spec fn shown(d: Database, opt: ShowOpt, now: i64, done: Seq<TaskDoneView>) -> Option<
    TableView,
> {
    let steps = opt.show_opts.steps;
    let all = params_of(opt.show_opts, inner_opts(opt.cmd), Seq::empty(), steps);
    match opt.task {
        Some(id) => {
            let mine = d.open_tasks().filter(|t: TaskView| t.id == id);
            if mine.len() > 0 {
                Some(
                    report_of(
                        d,
                        mine,
                        ShowParamsView {
                            label: Seq::empty(),
                            reference: true,
                            status: Seq::empty(),
                            storypoints: true,
                            steps: true,
                        },
                    ),
                )
            } else {
                None
            }
        },
        None => match opt.cmd {
            None => Some(report_of(d, d.open_tasks(), all)),
            Some(ShowCmd::All { show_opts }) => Some(report_of(d, d.open_tasks(), all)),
            Some(ShowCmd::Short { show_opts }) => Some(
                short_report_of(d, d.open_tasks(), all.label, all.reference, all.storypoints),
            ),
            Some(ShowCmd::Backlog { show_opts }) => Some(
                report_of(
                    d,
                    d.open_tasks(),
                    params_of(opt.show_opts, inner_opts(opt.cmd), Status::Todo.name_of(), steps),
                ),
            ),
            Some(ShowCmd::Work { show_opts }) => Some(
                report_of(
                    d,
                    d.open_tasks(),
                    params_of(
                        opt.show_opts,
                        inner_opts(opt.cmd),
                        Status::InProgress.name_of(),
                        true,
                    ),
                ),
            ),
            Some(ShowCmd::Done { show_opts, time_window }) => Some(
                done_report_of(
                    d,
                    done,
                    all.label,
                    match time_window {
                        Some(w) => w,
                        None => TimeWindow::Today,
                    },
                    now,
                    all.reference,
                    all.storypoints,
                ),
            ),
        },
    }
}

/// What an optional table holds, as mathematical values.
pub open spec fn opt_table(t: Option<Table>) -> Option<TableView> {
    match t {
        Some(t) => Some(t@),
        None => None,
    }
}

/// The report that the command `showopt` asks for at the time `now`; `None`
/// where it names a task that is not among the open tasks.
pub fn cmd_show(showopt: ShowOpt, db: &Store, now: i64) -> (r: Result<Option<Table>, StoreError>)
    requires
        db.wf(),
    ensures
        r is Ok <==> showopt.task is Some || db@.initialized,
        r is Err ==> r == Err::<Option<Table>, _>(StoreError::NotFound),
        r matches Ok(table) ==> forall|done: Seq<TaskDoneView>| #[trigger]
            is_done_report(done, db@.done_tasks()) ==> opt_table(table) == shown(
                db@,
                showopt,
                now,
                done,
            ),
{
    proof {
        reveal_strlit("");
        assert(""@ =~= Seq::<char>::empty());
    }
    let ghost asked = showopt;
    let ShowOpt { show_opts, cmd, task } = showopt;
    let mut opts = show_opts;
    if let Some(task_id) = task {
        return Ok(show1task(db, task_id));
    }
    proof {
        assert(texts(asked.show_opts.labels@) + Seq::<Seq<char>>::empty() =~= texts(
            asked.show_opts.labels@,
        ));
    }
    let table = match cmd {
        None => {
            let tasks = get_open_tasks(db)?;
            show2(db, tasks.as_slice(), opts.as_show_params(""))
        },
        Some(ShowCmd::All { show_opts }) => {
            let tasks = get_open_tasks(db)?;
            opts.merge(&show_opts);
            show2(db, tasks.as_slice(), opts.as_show_params(""))
        },
        Some(ShowCmd::Short { show_opts }) => {
            let tasks = get_open_tasks(db)?;
            opts.merge(&show_opts);
            show_short(db, tasks.as_slice(), opts.labels.as_slice(), opts.reference, opts.hidden)
        },
        Some(ShowCmd::Backlog { show_opts }) => {
            let tasks = get_open_tasks(db)?;
            opts.merge(&show_opts);
            show2(db, tasks.as_slice(), opts.as_show_params(Status::Todo.name()))
        },
        Some(ShowCmd::Work { show_opts }) => {
            let tasks = get_open_tasks(db)?;
            opts.merge(&show_opts);
            let mut param = opts.as_show_params(Status::InProgress.name());
            param.steps = true;
            show2(db, tasks.as_slice(), param)
        },
        Some(ShowCmd::Done { show_opts, time_window }) => {
            let tasks = get_done_tasks(db)?;
            opts.merge(&show_opts);
            let window = match time_window {
                Some(w) => w,
                None => TimeWindow::Today,
            };
            let table = show_done(
                db,
                tasks.as_slice(),
                opts.labels.as_slice(),
                &window,
                opts.reference,
                opts.hidden,
                now,
            );
            proof {
                assert forall|done: Seq<TaskDoneView>| #[trigger]
                    is_done_report(done, db@.done_tasks()) implies Some(table@) == shown(
                    db@,
                    asked,
                    now,
                    done,
                ) by {
                    lemma_done_report_unique(done, done_views(tasks@), db@.done_tasks());
                }
            }
            table
        },
    };
    Ok(Some(table))
}

/// What a command has done.
#[derive(Debug)]
pub enum Reply {
    /// The store is changed as the outcome says.
    Changed(Outcome),
    /// A report, or `None` where the task to report is not open.
    Report(Option<Table>),
    /// The command asks for the shell completions, which the store has no
    /// part in.
    Completion,
}

/// Carries out the command `cmd` at the time `now`. A failure names the
/// part that failed; for a report and for setting the store up that is the
/// store.
pub fn run(db: &mut Store, cmd: Cmd, now: i64) -> (r: Result<Reply, Failure>)
    requires
        old(db).wf(),
    ensures
        final(db).wf(),
        match cmd {
            Cmd::Show(opt) => {
                &&& final(db)@ == old(db)@
                &&& r is Ok <==> opt.task is Some || old(db)@.initialized
                &&& r is Err ==> r == failed::<Reply>(Field::Store, StoreError::NotFound)
                &&& r matches Ok(reply) ==> reply matches Reply::Report(table)
                    && forall|done: Seq<TaskDoneView>| #[trigger]
                    is_done_report(done, old(db)@.done_tasks()) ==> opt_table(table) == shown(
                        old(db)@,
                        opt,
                        now,
                        done,
                    )
            },
            Cmd::Db(opt) => {
                let force = opt.cmd->force;
                if force || !old(db)@.initialized {
                    final(db)@ == Database::fresh() && r matches Ok(Reply::Changed(Outcome::Applied))
                } else {
                    final(db)@ == old(db)@ && r == failed::<Reply>(
                        Field::Store,
                        StoreError::AlreadyInitializedMismatch,
                    )
                }
            },
            Cmd::Task(opt) => {
                let outcome = task_outcome(old(db)@, opt.cmd, now);
                final(db)@ == outcome.0 && match outcome.1 {
                    Ok(done) => r matches Ok(Reply::Changed(o)) && o == done,
                    Err(f) => r == Err::<Reply, _>(f),
                }
            },
            Cmd::Step(opt) => {
                let outcome = step_outcome(old(db)@, opt.cmd, now);
                final(db)@ == outcome.0 && match outcome.1 {
                    Ok(done) => r matches Ok(Reply::Changed(o)) && o == done,
                    Err(f) => r == Err::<Reply, _>(f),
                }
            },
            Cmd::Completion => final(db)@ == old(db)@ && r matches Ok(Reply::Completion),
        },
{
    match cmd {
        Cmd::Show(opt) => {
            match cmd_show(opt, db, now) {
                Ok(table) => Ok(Reply::Report(table)),
                Err(error) => Err(Failure { field: Field::Store, error }),
            }
        },
        Cmd::Db(opt) => {
            match opt.cmd {
                DbCmd::Init { force } => {
                    match cmd_dbinit(db, force) {
                        Ok(()) => Ok(Reply::Changed(Outcome::Applied)),
                        Err(error) => Err(Failure { field: Field::Store, error }),
                    }
                },
            }
        },
        Cmd::Task(opt) => {
            match run_task(db, opt.cmd, now) {
                Ok(done) => Ok(Reply::Changed(done)),
                Err(f) => Err(f),
            }
        },
        Cmd::Step(opt) => {
            match run_step(db, opt.cmd, now) {
                Ok(done) => Ok(Reply::Changed(done)),
                Err(f) => Err(f),
            }
        },
        Cmd::Completion => Ok(Reply::Completion),
    }
}

} // verus!
