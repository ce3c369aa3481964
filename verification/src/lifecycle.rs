//! The life of a task: creating it with its attributes, starting and
//! blocking it, editing it, and deleting it with all that belongs to it.
//! Completing a task is [`crate::db::complete_task`].

use crate::db::{
    add_labels, add_step, add_task, complete_step, delete_steps, delete_task, get_step, set_descr,
    set_priority, set_reference, set_status, set_storypoint,
};
use crate::store::{
    kept_descr, kept_reference, lemma_same_ids_same_tasks, lemma_with_labels_frame, with_labels,
    Database, Store, StoreError,
};
use crate::task::{Priority, Status, StepView};
use crate::text::{each_followed_by, join_each, texts};
use vstd::prelude::*;

verus! {

/// The part of a composite operation that failed.
#[derive(Clone, Copy, Debug, PartialEq, Eq, Structural)]
pub enum Field {
    /// Setting the store up, or reading it for a report.
    Store,
    /// The row of the task.
    Task,
    /// The labels of the task.
    Labels,
    /// The priority of the task.
    Priority,
    /// The story points of the task.
    StoryPoints,
    /// The reference of the task.
    Reference,
    /// A step of the task.
    Step,
    /// The description of the task.
    Description,
    /// The status of the task.
    Status,
}

/// A failed composite operation: what failed, and why. The parts before the
/// one that failed have been applied and stay applied.
#[derive(Clone, Copy, Debug, PartialEq, Eq, Structural)]
pub struct Failure {
    pub field: Field,
    pub error: StoreError,
}

/// The words of a description as one text: each word followed by a blank.
pub fn descr_to_string(descr: &[String]) -> (r: String)
    ensures
        r@ == each_followed_by(texts(descr@), " "@),
{
    join_each(descr, " ")
}

/// The store after work on the task `id` has started at `now`: the task is
/// in progress, and its step 0, if it has one that is open, is completed.
pub open spec fn started(d: Database, id: u32, now: i64) -> Database {
    if d.has_step(id, 0) && d.step(id, 0).is_open() {
        d.with_status(id, Status::InProgress).with_step_completed(id, 0, now)
    } else {
        d.with_status(id, Status::InProgress)
    }
}

/// Why a task cannot be moved: it does not exist, or it is done.
pub open spec fn move_error(d: Database, id: u32) -> StoreError {
    if d.has_task(id) {
        StoreError::InvalidTransition
    } else {
        StoreError::NotFound
    }
}

/// Starts work on the task `todo_id` at the time `now`: the task becomes in
/// progress, from whatever status but `Done`, and its step 0 is completed if
/// it exists and is open.
pub fn start_task(db: &mut Store, todo_id: u32, now: i64) -> (r: Result<(), StoreError>)
    requires
        old(db).wf(),
    ensures
        final(db).wf(),
        r is Ok <==> old(db)@.has_task(todo_id) && old(db)@.task(todo_id).status != Status::Done,
        r is Ok ==> final(db)@ == started(old(db)@, todo_id, now),
        r matches Err(e) ==> e == move_error(old(db)@, todo_id) && final(db)@ == old(db)@,
{
    proof {
        Status::InProgress.lemma_name_round_trip();
    }
    match set_status(db, todo_id, "in_progress") {
        Ok(()) => {},
        Err(e) => {
            return Err(e);
        },
    }
    let ghost moved = db@;
    assert(moved.steps == old(db)@.steps);
    match get_step(db, todo_id, 0) {
        Ok(step) => {
            if step.completion_date.is_none() {
                let _ = complete_step(db, todo_id, 0, now);
            }
        },
        Err(_) => {},
    }
    proof {
        assert(moved == old(db)@.with_status(todo_id, Status::InProgress));
        assert(moved.has_step(todo_id, 0) == old(db)@.has_step(todo_id, 0));
        assert(moved.step(todo_id, 0) == old(db)@.step(todo_id, 0));
    }
    Ok(())
}

/// Marks the task `todo_id` as blocked, from whatever status but `Done`.
pub fn block_task(db: &mut Store, todo_id: u32) -> (r: Result<(), StoreError>)
    requires
        old(db).wf(),
    ensures
        final(db).wf(),
        r is Ok <==> old(db)@.has_task(todo_id) && old(db)@.task(todo_id).status != Status::Done,
        r is Ok ==> final(db)@ == old(db)@.with_status(todo_id, Status::Block),
        r matches Err(e) ==> e == move_error(old(db)@, todo_id) && final(db)@ == old(db)@,
{
    proof {
        Status::Block.lemma_name_round_trip();
    }
    set_status(db, todo_id, "block")
}

/// Deletes the task `todo_id` with all that belongs to it: first its steps,
/// then its row and its labels.
///
/// The steps and labels recorded under `todo_id` are removed also when no
/// task has that identifier; the call then fails with `NotFound`.
pub fn remove_task(db: &mut Store, todo_id: u32) -> (r: Result<(), StoreError>)
    requires
        old(db).wf(),
    ensures
        final(db).wf(),
        r is Ok <==> old(db)@.has_task(todo_id),
        final(db)@ == old(db)@.without_steps_of(todo_id).without_task(todo_id).without_labels_of(
            todo_id,
        ),
        !final(db)@.has_task(todo_id),
        final(db)@.steps_of(todo_id) == Seq::<StepView>::empty(),
        final(db)@.labels_of(todo_id) == Seq::<Seq<char>>::empty(),
        r is Err ==> r == Err::<(), _>(StoreError::NotFound),
{
    match delete_steps(db, todo_id) {
        Ok(()) => {},
        Err(e) => {
            proof {
                reveal(Seq::filter);
                let d = old(db)@;
                assert(d.without_steps_of(todo_id).steps =~= d.steps);
                assert(d.without_task(todo_id).tasks =~= d.tasks);
                assert(d.without_labels_of(todo_id).labels =~= d.labels);
                assert(d.labels_of(todo_id) =~= Seq::<Seq<char>>::empty());
            }
            return Err(e);
        },
    }
    let r = delete_task(db, todo_id);
    assert(db@.steps == old(db)@.without_steps_of(todo_id).steps);
    r
}

/// The outcome of a part that failed.
pub open spec fn failed<T>(field: Field, error: StoreError) -> Result<T, Failure> {
    Err(Failure { field, error })
}

/// The characters of an optional text.
pub open spec fn opt_text(text: Option<String>) -> Option<Seq<char>> {
    match text {
        Some(t) => Some(t@),
        None => None,
    }
}

/// The store and the outcome after the optional attributes are applied, one
/// after the other, to the new task `id`, and its first step is added.
pub open spec fn enriched(
    d: Database,
    id: u32,
    priority: Option<Seq<char>>,
    storypoint: Option<u32>,
    reference: Option<Seq<char>>,
) -> (Database, Result<u32, Failure>) {
    if priority is Some && Priority::named(priority->0) is None {
        (d, failed(Field::Priority, StoreError::NotFound))
    } else {
        let d1 = if priority is Some {
            d.with_priority(id, Priority::named(priority->0)->0)
        } else {
            d
        };
        let d2 = if storypoint is Some {
            d1.with_storypoints(id, storypoint->0)
        } else {
            d1
        };
        if reference is Some && d2.refs.len() + 1 == u32::MAX {
            (d2, failed(Field::Reference, StoreError::StoreUnavailable))
        } else {
            let d3 = if reference is Some {
                d2.with_reference(id, kept_reference(reference->0))
            } else {
                d2
            };
            if d3.next_step_of(id) > u32::MAX {
                (d3, failed(Field::Step, StoreError::StoreUnavailable))
            } else {
                (d3.with_new_step(id, "start"@), Ok(id))
            }
        }
    }
}

/// The store and the outcome after a task is created from the words `descr`
/// with the given attributes: the row first, then the labels, the priority,
/// the story points and the reference, each where given, then the first
/// step, called `start`. What was applied before a part fails stays.
pub open spec fn created(
    d: Database,
    descr: Seq<Seq<char>>,
    labels: Seq<Seq<char>>,
    priority: Option<Seq<char>>,
    storypoint: Option<u32>,
    reference: Option<Seq<char>>,
    now: i64,
) -> (Database, Result<u32, Failure>) {
    if !d.initialized {
        (d, failed(Field::Task, StoreError::NotFound))
    } else if d.next_task_id == u32::MAX {
        (d, failed(Field::Task, StoreError::StoreUnavailable))
    } else {
        enriched(
            with_labels(d.with_new_task(each_followed_by(descr, " "@), now), d.next_task_id, labels),
            d.next_task_id,
            priority,
            storypoint,
            reference,
        )
    }
}

/// Creates a task from the words `descr` and gives it the attributes that
/// are there: labels, priority, story points, reference. Last it gets its
/// first step, `start`. Returns the new task's identifier.
///
/// The parts are applied one after the other. When one fails the task and
/// the parts before stay, and the failure names the part.
pub fn create_task(
    db: &mut Store,
    descr: &[String],
    labels: &[String],
    priority: &Option<String>,
    storypoint: Option<u32>,
    reference: &Option<String>,
    now: i64,
) -> (r: Result<u32, Failure>)
    requires
        old(db).wf(),
    ensures
        final(db).wf(),
        (final(db)@, r) == created(
            old(db)@,
            texts(descr@),
            texts(labels@),
            opt_text(*priority),
            storypoint,
            opt_text(*reference),
            now,
        ),
{
    let text = descr_to_string(descr);
    let id = match add_task(db, text.as_str(), now) {
        Ok(id) => id,
        Err(error) => {
            return Err(Failure { field: Field::Task, error });
        },
    };
    let ghost at = old(db)@.tasks.len() as int;
    assert(db@.tasks[at].id == id);
    if labels.len() > 0 {
        let ghost plain = db@;
        let _ = add_labels(db, id, labels);
        proof {
            lemma_with_labels_frame(plain, id, texts(labels@));
        }
    }
    assert(db@.tasks[at].id == id);
    assert(db@.has_task(id));
    let ghost labelled = db@;
    if let Some(name) = priority {
        match set_priority(db, id, name.as_str()) {
            Ok(()) => {},
            Err(error) => {
                return Err(Failure { field: Field::Priority, error });
            },
        }
    }
    assert(db@.tasks[at].id == id);
    assert(db@.has_task(id));
    if let Some(points) = storypoint {
        let _ = set_storypoint(db, id, points);
    }
    assert(db@.tasks[at].id == id);
    assert(db@.has_task(id));
    if let Some(text) = reference {
        match set_reference(db, id, text.as_str()) {
            Ok(()) => {},
            Err(error) => {
                return Err(Failure { field: Field::Reference, error });
            },
        }
    }
    match add_step(db, id, "start") {
        Ok(_) => Ok(id),
        Err(error) => Err(Failure { field: Field::Step, error }),
    }
}

/// The store and the outcome after the attributes that are given are
/// applied to the task `id`, one after the other: description, priority,
/// story points, reference, status. What was applied before a part fails
/// stays; a reference text is recorded even where the task is missing.
pub open spec fn edited(
    d: Database,
    id: u32,
    descr: Option<Seq<char>>,
    priority: Option<Seq<char>>,
    storypoint: Option<u32>,
    reference: Option<Seq<char>>,
    status: Option<Seq<char>>,
) -> (Database, Result<(), Failure>) {
    if descr is Some && !d.has_task(id) {
        (d, failed(Field::Description, StoreError::NotFound))
    } else {
        let d1 = if descr is Some {
            d.with_descr(id, kept_descr(descr->0))
        } else {
            d
        };
        if priority is Some && (Priority::named(priority->0) is None || !d.has_task(id)) {
            (d1, failed(Field::Priority, StoreError::NotFound))
        } else {
            let d2 = if priority is Some {
                d1.with_priority(id, Priority::named(priority->0)->0)
            } else {
                d1
            };
            if storypoint is Some && !d.has_task(id) {
                (d2, failed(Field::StoryPoints, StoreError::NotFound))
            } else {
                let d3 = if storypoint is Some {
                    d2.with_storypoints(id, storypoint->0)
                } else {
                    d2
                };
                edited_end(d3, id, reference, status)
            }
        }
    }
}

/// The last two parts of [`edited`]: reference and status.
pub open spec fn edited_end(
    d: Database,
    id: u32,
    reference: Option<Seq<char>>,
    status: Option<Seq<char>>,
) -> (Database, Result<(), Failure>) {
    if reference is Some && !d.initialized {
        (d, failed(Field::Reference, StoreError::NotFound))
    } else if reference is Some && d.refs.len() + 1 == u32::MAX {
        (d, failed(Field::Reference, StoreError::StoreUnavailable))
    } else if reference is Some && !d.has_task(id) {
        (
            d.with_reference_text(kept_reference(reference->0)),
            failed(Field::Reference, StoreError::NotFound),
        )
    } else {
        let d1 = if reference is Some {
            d.with_reference(id, kept_reference(reference->0))
        } else {
            d
        };
        if status is None {
            (d1, Ok(()))
        } else if Status::named(status->0) is Some && Status::named(status->0) != Some(
            Status::Done,
        ) && d1.has_task(id) && d1.task(id).status != Status::Done {
            (d1.with_status(id, Status::named(status->0)->0), Ok(()))
        } else {
            (d1, failed(Field::Status, crate::db::status_edit_error(d1, id, status->0)))
        }
    }
}

/// Edits the task `task`: gives it the attributes that are there, in the
/// order description, priority, story points, reference, status. The
/// description is given as words and left alone if there is none.
///
/// The status cannot be set to `done`, and the status of a task that is
/// done cannot be set: completing is an operation of its own. When a part
/// fails the parts before stay, and the failure names the part. With no
/// attribute given nothing happens.
pub fn edit_task(
    db: &mut Store,
    task: u32,
    descr: &[String],
    priority: &Option<String>,
    storypoint: Option<u32>,
    reference: &Option<String>,
    status: &Option<String>,
) -> (r: Result<(), Failure>)
    requires
        old(db).wf(),
    ensures
        final(db).wf(),
        (final(db)@, r) == edited(
            old(db)@,
            task,
            if descr@.len() > 0 {
                Some(each_followed_by(texts(descr@), " "@))
            } else {
                None
            },
            opt_text(*priority),
            storypoint,
            opt_text(*reference),
            opt_text(*status),
        ),
{
    let ghost start = old(db)@;
    if descr.len() > 0 {
        let text = descr_to_string(descr);
        match set_descr(db, task, text.as_str()) {
            Ok(()) => {},
            Err(error) => {
                return Err(Failure { field: Field::Description, error });
            },
        }
    }
    proof {
        lemma_same_ids_same_tasks(start, db@, task);
    }
    if let Some(name) = priority {
        match set_priority(db, task, name.as_str()) {
            Ok(()) => {},
            Err(error) => {
                return Err(Failure { field: Field::Priority, error });
            },
        }
    }
    proof {
        lemma_same_ids_same_tasks(start, db@, task);
    }
    if let Some(points) = storypoint {
        match set_storypoint(db, task, points) {
            Ok(()) => {},
            Err(error) => {
                return Err(Failure { field: Field::StoryPoints, error });
            },
        }
    }
    if let Some(text) = reference {
        match set_reference(db, task, text.as_str()) {
            Ok(()) => {},
            Err(error) => {
                return Err(Failure { field: Field::Reference, error });
            },
        }
    }
    if let Some(name) = status {
        match set_status(db, task, name.as_str()) {
            Ok(()) => {},
            Err(error) => {
                return Err(Failure { field: Field::Status, error });
            },
        }
    }
    Ok(())
}

} // verus!
