//! The operations of the task store. Each one states what it returns and how
//! the store after it relates to the store before it.

use crate::seqs::{
    lemma_filter_all, lemma_filter_keeps_all, lemma_filter_keeps_none, lemma_filter_keeps_order,
    lemma_filter_members, lemma_filter_next, lemma_filter_removes_one,
};
use crate::store::{
    kept_descr, kept_label, kept_reference, new_step, new_task, with_labels, Database,
    LabelRecord, LabelRow, Store, StoreError, TaskRecord, TaskRow, DESCR_LIMIT, LABEL_LIMIT,
    REFERENCE_LIMIT,
};
use crate::task::{
    done_views, step_views, task_views, Priority, Status, Step, StepView, Task, TaskDone,
    TaskDoneView,
};
use crate::text::{clip, lemma_bounded_fits, utf8_len, texts, trim, trim_end, trim_end_of, trim_of};
use vstd::prelude::*;

verus! {

/// Changing a task that exists changes the row at its position and no other.
proof fn lemma_change_at(
    before: Database,
    id: u32,
    i: int,
    change: spec_fn(TaskRecord) -> TaskRecord,
)
    requires
        before.tasks_wf(),
        0 <= i < before.tasks.len(),
        before.tasks[i].id == id,
    ensures
        before.with_task_changed(id, change).tasks == before.tasks.update(
            i,
            change(before.tasks[i]),
        ),
{
    let changed = before.with_task_changed(id, change).tasks;
    let updated = before.tasks.update(i, change(before.tasks[i]));
    assert forall|k: int| 0 <= k < changed.len() implies changed[k] == updated[k] by {
        if k != i {
            assert(before.tasks[k].id != before.tasks[i].id);
        }
    }
    assert(changed =~= updated);
}

/// The row at a position that holds the identifier `id` is the task `id`.
proof fn lemma_task_at(d: Database, id: u32, i: int)
    requires
        d.tasks_wf(),
        0 <= i < d.tasks.len(),
        d.tasks[i].id == id,
    ensures
        d.has_task(id),
        d.task(id) == d.tasks[i],
{
    let k = choose|k: int| 0 <= k < d.tasks.len() && (#[trigger] d.tasks[k]).id == id;
    if k < i {
        assert(d.tasks[k].id < d.tasks[i].id);
    } else if i < k {
        assert(d.tasks[i].id < d.tasks[k].id);
    }
}

/// Why an edit of the status of task `id` to the status called `status` is
/// refused, on a store and a name for which it is.
pub open spec fn status_edit_error(d: Database, id: u32, status: Seq<char>) -> StoreError {
    if Status::named(status) is None {
        StoreError::NotFound
    } else if Status::named(status) == Some(Status::Done) {
        StoreError::InvalidTransition
    } else if !d.has_task(id) {
        StoreError::NotFound
    } else {
        StoreError::InvalidTransition
    }
}

/// The row at a position that holds the step `step_id` of task `id` is that
/// step.
proof fn lemma_step_at(d: Database, id: u32, step_id: u32, i: int)
    requires
        d.steps_wf(),
        0 <= i < d.steps.len(),
        d.steps[i].todo_id == id,
        d.steps[i].step_id == step_id,
    ensures
        d.has_step(id, step_id),
        d.step(id, step_id) == d.steps[i],
{
    let k = choose|k: int|
        0 <= k < d.steps.len() && (#[trigger] d.steps[k]).todo_id == id && d.steps[k].step_id
            == step_id;
    if k < i {
        assert(d.steps[k].step_id < d.steps[i].step_id);
    } else if i < k {
        assert(d.steps[i].step_id < d.steps[k].step_id);
    }
}

/// Removes every relation from the store, with all the rows.
pub fn delete_tables(db: &mut Store) -> (r: Result<(), StoreError>)
    ensures
        r is Ok,
        final(db).wf(),
        final(db)@ == Database::blank(),
{
    *db = Store::new();
    Ok(())
}

/// Sets the store up: creates the relations, empty, and the fixed priorities
/// and statuses.
///
/// With `delete` whatever the store held is dropped first. Without it a store
/// that is already set up is left as it is and the call fails.
pub fn init(db: &mut Store, delete: bool) -> (r: Result<(), StoreError>)
    requires
        old(db).wf(),
    ensures
        final(db).wf(),
        r is Ok <==> delete || !old(db)@.initialized,
        r is Ok ==> final(db)@ == Database::fresh(),
        r is Err ==> r == Err::<(), _>(StoreError::AlreadyInitializedMismatch) && final(db)@ == old(
            db,
        )@,
{
    if db.initialized && !delete {
        return Err(StoreError::AlreadyInitializedMismatch);
    }
    *db = Store::new();
    db.initialized = true;
    Ok(())
}

/// The rank of the priority called `priority`.
pub fn get_priority_id(db: &Store, priority: &str) -> (r: Result<u32, StoreError>)
    ensures
        r is Ok <==> db@.initialized && Priority::named(priority@) is Some,
        r matches Ok(rank) ==> rank == Priority::named(priority@)->0.rank_of(),
        r is Err ==> r == Err::<u32, _>(StoreError::NotFound),
{
    if !db.initialized {
        return Err(StoreError::NotFound);
    }
    match Priority::from_name(priority) {
        Some(p) => Ok(p.rank()),
        None => Err(StoreError::NotFound),
    }
}

/// The rank of the status called `status`.
pub fn get_status_id(db: &Store, status: &str) -> (r: Result<u32, StoreError>)
    ensures
        r is Ok <==> db@.initialized && Status::named(status@) is Some,
        r matches Ok(rank) ==> rank == Status::named(status@)->0.rank_of(),
        r is Err ==> r == Err::<u32, _>(StoreError::NotFound),
{
    if !db.initialized {
        return Err(StoreError::NotFound);
    }
    match Status::from_name(status) {
        Some(s) => Ok(s.rank()),
        None => Err(StoreError::NotFound),
    }
}

/// Creates a task with the description `descr` at the time `now`: of normal
/// priority, to do, without story points, reference, labels or steps.
///
/// Returns the new task's identifier, which no task had before.
pub fn add_task(db: &mut Store, descr: &str, now: i64) -> (r: Result<u32, StoreError>)
    requires
        old(db).wf(),
    ensures
        final(db).wf(),
        r is Ok <==> old(db)@.initialized && old(db)@.next_task_id < u32::MAX,
        r matches Ok(id) ==> id == old(db)@.next_task_id && !old(db)@.has_task(id) && final(db)@
            == old(db)@.with_new_task(descr@, now),
        r matches Err(e) ==> final(db)@ == old(db)@ && e == if old(db)@.initialized {
            StoreError::StoreUnavailable
        } else {
            StoreError::NotFound
        },
{
    if !db.initialized {
        return Err(StoreError::NotFound);
    }
    if db.next_task_id == u32::MAX {
        return Err(StoreError::StoreUnavailable);
    }
    let id: u32 = db.next_task_id;
    let row = TaskRow {
        id,
        creation_date: now,
        descr: clip(trim_end(descr).as_str(), DESCR_LIMIT),
        priority: Priority::Normal,
        status: Status::Todo,
        refs_id: None,
        storypoints: 0,
        completion_date: None,
    };
    db.tasks.push(row);
    db.next_task_id = id + 1;
    proof {
        lemma_bounded_fits(trim_end_of(descr@), DESCR_LIMIT as nat);
        assert(db@.tasks =~= old(db)@.tasks.push(new_task(id, descr@, now)));
        assert forall|i: int| 0 <= i < old(db)@.tasks.len() implies db@.tasks[i] == old(
            db,
        )@.tasks[i] by {}
        assert(db@.labels == old(db)@.labels);
        assert(db@.steps == old(db)@.steps);
        assert(db@.refs == old(db)@.refs);
    }
    Ok(id)
}

/// Gives the task `todo_id` the priority called `priority`.
pub fn set_priority(db: &mut Store, todo_id: u32, priority: &str) -> (r: Result<(), StoreError>)
    requires
        old(db).wf(),
    ensures
        final(db).wf(),
        r is Ok <==> Priority::named(priority@) is Some && old(db)@.has_task(todo_id),
        r is Ok ==> final(db)@ == old(db)@.with_priority(todo_id, Priority::named(priority@)->0),
        r is Err ==> r == Err::<(), _>(StoreError::NotFound) && final(db)@ == old(db)@,
{
    let p = match Priority::from_name(priority) {
        Some(p) => p,
        None => {
            return Err(StoreError::NotFound);
        },
    };
    match db.find_task(todo_id) {
        Some(i) => {
            db.tasks[i].priority = p;
            proof {
                let change = |t: TaskRecord| TaskRecord { priority: Priority::named(priority@)->0, ..t };
                lemma_change_at(old(db)@, todo_id, i as int, change);
                assert(db@.tasks =~= old(db)@.tasks.update(i as int, change(old(db)@.tasks[i as int])));
            }
            Ok(())
        },
        None => Err(StoreError::NotFound),
    }
}

/// Moves the task `todo_id` to the status called `status`.
///
/// The final status `done` cannot be set this way, and a task that has
/// reached it cannot be moved.
pub fn set_status(db: &mut Store, todo_id: u32, status: &str) -> (r: Result<(), StoreError>)
    requires
        old(db).wf(),
    ensures
        final(db).wf(),
        r is Ok <==> {
            &&& Status::named(status@) is Some
            &&& Status::named(status@) != Some(Status::Done)
            &&& old(db)@.has_task(todo_id)
            &&& old(db)@.task(todo_id).status != Status::Done
        },
        r is Ok ==> final(db)@ == old(db)@.with_status(todo_id, Status::named(status@)->0),
        r matches Err(e) ==> e == status_edit_error(old(db)@, todo_id, status@) && final(db)@
            == old(db)@,
{
    let s = match Status::from_name(status) {
        Some(s) => s,
        None => {
            return Err(StoreError::NotFound);
        },
    };
    if s == Status::Done {
        return Err(StoreError::InvalidTransition);
    }
    match db.find_task(todo_id) {
        Some(i) => {
            proof {
                lemma_task_at(db@, todo_id, i as int);
            }
            if db.tasks[i].status == Status::Done {
                return Err(StoreError::InvalidTransition);
            }
            db.tasks[i].status = s;
            proof {
                let change = |t: TaskRecord| TaskRecord { status: Status::named(status@)->0, ..t };
                lemma_change_at(old(db)@, todo_id, i as int, change);
                assert(db@.tasks =~= old(db)@.tasks.update(i as int, change(old(db)@.tasks[i as int])));
            }
            Ok(())
        },
        None => Err(StoreError::NotFound),
    }
}

/// Gives the task `todo_id` the description `descr`.
pub fn set_descr(db: &mut Store, todo_id: u32, descr: &str) -> (r: Result<(), StoreError>)
    requires
        old(db).wf(),
    ensures
        final(db).wf(),
        r is Ok <==> old(db)@.has_task(todo_id),
        r is Ok ==> final(db)@ == old(db)@.with_descr(todo_id, kept_descr(descr@)),
        r is Err ==> r == Err::<(), _>(StoreError::NotFound) && final(db)@ == old(db)@,
{
    match db.find_task(todo_id) {
        Some(i) => {
            db.tasks[i].descr = clip(trim_end(descr).as_str(), DESCR_LIMIT);
            proof {
                lemma_bounded_fits(trim_end_of(descr@), DESCR_LIMIT as nat);
                let change = |t: TaskRecord| TaskRecord { descr: kept_descr(descr@), ..t };
                lemma_change_at(old(db)@, todo_id, i as int, change);
                assert(db@.tasks =~= old(db)@.tasks.update(i as int, change(old(db)@.tasks[i as int])));
            }
            Ok(())
        },
        None => Err(StoreError::NotFound),
    }
}

/// Gives the task `todo_id` the story points `storypoint`.
pub fn set_storypoint(db: &mut Store, todo_id: u32, storypoint: u32) -> (r: Result<
    (),
    StoreError,
>)
    requires
        old(db).wf(),
    ensures
        final(db).wf(),
        r is Ok <==> old(db)@.has_task(todo_id),
        r is Ok ==> final(db)@ == old(db)@.with_storypoints(todo_id, storypoint),
        r is Err ==> r == Err::<(), _>(StoreError::NotFound) && final(db)@ == old(db)@,
{
    match db.find_task(todo_id) {
        Some(i) => {
            db.tasks[i].storypoints = storypoint;
            proof {
                let change = |t: TaskRecord| TaskRecord { storypoints: storypoint, ..t };
                lemma_change_at(old(db)@, todo_id, i as int, change);
                assert(db@.tasks =~= old(db)@.tasks.update(i as int, change(old(db)@.tasks[i as int])));
            }
            Ok(())
        },
        None => Err(StoreError::NotFound),
    }
}

/// Moves the priority of the task `todo_id` one rank toward `Urgent`. A task
/// that is urgent already stays as it is, and the call succeeds.
pub fn increase_priority(db: &mut Store, todo_id: u32) -> (r: Result<(), StoreError>)
    requires
        old(db).wf(),
    ensures
        final(db).wf(),
        r is Ok <==> old(db)@.has_task(todo_id),
        r is Ok ==> final(db)@ == old(db)@.with_raised_priority(todo_id),
        r is Ok && old(db)@.task(todo_id).priority == Priority::Urgent ==> final(db)@ == old(db)@,
        r is Err ==> r == Err::<(), _>(StoreError::NotFound) && final(db)@ == old(db)@,
{
    match db.find_task(todo_id) {
        Some(i) => {
            let raised = db.tasks[i].priority.raised();
            db.tasks[i].priority = raised;
            proof {
                let change = |t: TaskRecord| TaskRecord { priority: t.priority.raised_of(), ..t };
                lemma_change_at(old(db)@, todo_id, i as int, change);
                lemma_task_at(old(db)@, todo_id, i as int);
                assert(db@.tasks =~= old(db)@.tasks.update(i as int, change(old(db)@.tasks[i as int])));
                if old(db)@.task(todo_id).priority == Priority::Urgent {
                    assert(db@.tasks =~= old(db)@.tasks);
                }
            }
            Ok(())
        },
        None => Err(StoreError::NotFound),
    }
}

/// The reference text of the task `todo_id`; empty if it has none.
pub fn get_refs(db: &Store, todo_id: u32) -> (r: Result<String, StoreError>)
    requires
        db.wf(),
    ensures
        r is Ok <==> db@.has_task(todo_id),
        r matches Ok(text) ==> text@ == db@.reference_of(todo_id),
        r is Err ==> r == Err::<String, _>(StoreError::NotFound),
{
    match db.find_task(todo_id) {
        Some(i) => {
            proof {
                lemma_task_at(db@, todo_id, i as int);
                assert(db@.tasks[i as int] == db.tasks[i as int]@);
            }
            match db.tasks[i].refs_id {
                Some(r) => {
                    assert(db@.refs[r - 1] == db.refs[r - 1]@);
                    Ok(db.refs[(r - 1) as usize].clone())
                },
                None => Ok(String::new()),
            }
        },
        None => Err(StoreError::NotFound),
    }
}

/// Records the text `reference` as a new reference and makes it the
/// reference of the task `todo_id`.
///
/// The text is recorded before the task is looked up: it stays recorded when
/// the task does not exist. Earlier references are kept.
pub fn set_reference(db: &mut Store, todo_id: u32, reference: &str) -> (r: Result<
    (),
    StoreError,
>)
    requires
        old(db).wf(),
    ensures
        final(db).wf(),
        r is Ok <==> old(db)@.has_task(todo_id) && old(db)@.refs.len() + 1 < u32::MAX,
        r is Ok ==> final(db)@ == old(db)@.with_reference(todo_id, kept_reference(reference@)),
        r matches Err(e) ==> {
            if !old(db)@.initialized {
                e == StoreError::NotFound && final(db)@ == old(db)@
            } else if old(db)@.refs.len() + 1 == u32::MAX {
                e == StoreError::StoreUnavailable && final(db)@ == old(db)@
            } else {
                e == StoreError::NotFound && final(db)@ == old(db)@.with_reference_text(
                    kept_reference(reference@),
                )
            }
        },
{
    if !db.initialized {
        return Err(StoreError::NotFound);
    }
    if db.refs.len() >= (u32::MAX - 1) as usize {
        return Err(StoreError::StoreUnavailable);
    }
    db.refs.push(clip(trim_end(reference).as_str(), REFERENCE_LIMIT));
    let ref_id: u32 = db.refs.len() as u32;
    let ghost logged = db@;
    proof {
        lemma_bounded_fits(trim_end_of(reference@), REFERENCE_LIMIT as nat);
        assert(db@.refs =~= old(db)@.refs.push(kept_reference(reference@)));
        assert(db@.tasks =~= old(db)@.tasks);
        assert(db@.labels == old(db)@.labels);
        assert(db@.steps == old(db)@.steps);
        assert(logged.wf());
    }
    match db.find_task(todo_id) {
        Some(i) => {
            db.tasks[i].refs_id = Some(ref_id);
            proof {
                let change = |t: TaskRecord|
                    TaskRecord { refs_id: Some((old(db)@.refs.len() + 1) as u32), ..t };
                lemma_change_at(logged, todo_id, i as int, change);
                assert(db@.tasks =~= logged.tasks.update(i as int, change(logged.tasks[i as int])));
                assert(old(db)@.tasks[i as int].id == todo_id);
                assert(db@.labels == logged.labels);
                assert(db@.steps == logged.steps);
                assert(db@.refs == logged.refs);
            }
            Ok(())
        },
        None => {
            proof {
                assert forall|k: int| 0 <= k < old(db)@.tasks.len() implies (
                #[trigger] old(db)@.tasks[k]).id != todo_id by {
                    assert(logged.tasks[k].id != todo_id);
                }
            }
            Err(StoreError::NotFound)
        },
    }
}

/// Tells whether `label` is attached to the task `todo_id`.
pub fn has_label(db: &Store, todo_id: u32, label: &str) -> (r: bool)
    ensures
        r == db@.has_label(todo_id, label@),
{
    let ghost wanted = LabelRecord { todo_id, label: label@ };
    let mut i: usize = 0;
    while i < db.labels.len()
        invariant
            0 <= i <= db.labels.len(),
            wanted == (LabelRecord { todo_id, label: label@ }),
            forall|k: int| 0 <= k < i ==> (#[trigger] db.labels[k])@ != wanted,
        decreases db.labels.len() - i,
    {
        if db.labels[i].todo_id == todo_id && *db.labels[i].label.as_str() == *label {
            assert(db@.labels[i as int] == wanted);
            return true;
        }
        i = i + 1;
    }
    assert forall|k: int| 0 <= k < db@.labels.len() implies #[trigger] db@.labels[k] != wanted by {
        assert(db@.labels[k] == db.labels[k]@);
    }
    false
}

/// Attaches each of `labels` to the task `todo_id`. A label that the task
/// has already is passed over: attaching it again is no error.
pub fn add_labels(db: &mut Store, todo_id: u32, labels: &[String]) -> (r: Result<(), StoreError>)
    requires
        old(db).wf(),
    ensures
        final(db).wf(),
        r is Ok <==> old(db)@.initialized,
        r is Ok ==> final(db)@ == with_labels(old(db)@, todo_id, texts(labels@)),
        r is Err ==> r == Err::<(), _>(StoreError::NotFound) && final(db)@ == old(db)@,
{
    if !db.initialized {
        return Err(StoreError::NotFound);
    }
    let ghost all = texts(labels@);
    let mut i: usize = 0;
    while i < labels.len()
        invariant
            0 <= i <= labels.len(),
            all == texts(labels@),
            db.wf(),
            db@.initialized,
            db@ == with_labels(old(db)@, todo_id, all.take(i as int)),
        decreases labels.len() - i,
    {
        let label = clip(trim(labels[i].as_str()).as_str(), LABEL_LIMIT);
        let ghost before = db@;
        proof {
            lemma_bounded_fits(trim_of(labels@[i as int]@), LABEL_LIMIT as nat);
            assert(all.take(i + 1).drop_last() =~= all.take(i as int));
            assert(all.take(i + 1).last() == labels@[i as int]@);
        }
        if !has_label(db, todo_id, label.as_str()) {
            db.labels.push(LabelRow { todo_id, label });
            proof {
                let added = LabelRecord { todo_id, label: kept_label(labels@[i as int]@) };
                assert(db@.labels =~= before.labels.push(added));
                assert(db@.tasks =~= before.tasks);
                assert forall|a: int, b: int| 0 <= a < b < db@.labels.len() implies
                    #[trigger] db@.labels[a] != #[trigger] db@.labels[b] by {
                    if b == before.labels.len() {
                        assert(before.labels[a] != added);
                    } else {
                        assert(before.labels[a] != before.labels[b]);
                    }
                }
            }
        }
        i = i + 1;
    }
    assert(all.take(i as int) =~= all);
    Ok(())
}

/// The labels of the task `todo_id`, in the order in which they were
/// attached.
pub fn get_labels(db: &Store, todo_id: u32) -> (r: Result<Vec<String>, StoreError>)
    ensures
        r is Ok <==> db@.initialized,
        r matches Ok(labels) ==> texts(labels@) == db@.labels_of(todo_id),
        r is Err ==> r == Err::<Vec<String>, _>(StoreError::NotFound),
{
    if !db.initialized {
        return Err(StoreError::NotFound);
    }
    let ghost pred = |l: LabelRecord| l.todo_id == todo_id;
    let ghost name = |l: LabelRecord| l.label;
    let mut out: Vec<String> = Vec::new();
    let mut i: usize = 0;
    proof {
        lemma_filter_keeps_none(db@.labels.take(0), pred);
        assert(texts(out@) =~= db@.labels.take(0).filter(pred).map_values(name));
    }
    while i < db.labels.len()
        invariant
            0 <= i <= db.labels.len(),
            pred == |l: LabelRecord| l.todo_id == todo_id,
            name == |l: LabelRecord| l.label,
            texts(out@) == db@.labels.take(i as int).filter(pred).map_values(name),
        decreases db.labels.len() - i,
    {
        proof {
            lemma_filter_next(db@.labels, pred, i as int);
        }
        if db.labels[i].todo_id == todo_id {
            let ghost collected = texts(out@);
            out.push(db.labels[i].label.clone());
            proof {
                let kept = db@.labels.take(i as int).filter(pred);
                assert(db@.labels[i as int] == db.labels[i as int]@);
                assert(texts(out@) =~= collected.push(db@.labels[i as int].label));
                assert(kept.push(db@.labels[i as int]).map_values(name) =~= kept.map_values(
                    name,
                ).push(db@.labels[i as int].label));
            }
        }
        i = i + 1;
    }
    proof {
        lemma_filter_all(db@.labels, pred);
    }
    Ok(out)
}

/// The rows of `rows` that are not attached to the task `id`, in order.
fn labels_without(rows: Vec<LabelRow>, id: u32) -> (kept: Vec<LabelRow>)
    ensures
        kept@.map_values(|l: LabelRow| l@) == rows@.map_values(|l: LabelRow| l@).filter(
            |l: LabelRecord| l.todo_id != id,
        ),
{
    let mut kept: Vec<LabelRow> = Vec::new();
    let ghost all = rows@.map_values(|l: LabelRow| l@);
    let ghost pred = |l: LabelRecord| l.todo_id != id;
    proof {
        lemma_filter_keeps_none(all.take(0), pred);
        assert(kept@.map_values(|l: LabelRow| l@) =~= all.take(0).filter(pred));
    }
    for row in it: rows
        invariant
            it.seq() == rows@,
            all == rows@.map_values(|l: LabelRow| l@),
            pred == |l: LabelRecord| l.todo_id != id,
            kept@.map_values(|l: LabelRow| l@) == all.take(it.index()).filter(pred),
    {
        proof {
            lemma_filter_next(all, pred, it.index());
        }
        if row.todo_id != id {
            kept.push(row);
            assert(kept@.map_values(|l: LabelRow| l@) =~= all.take(it.index()).filter(pred).push(
                all[it.index()],
            ));
        }
    }
    proof {
        lemma_filter_all(all, pred);
    }
    kept
}

/// Removes the row of the task `todo_id` and its labels. Its steps stay.
///
/// The labels are removed whether or not the task exists.
pub fn delete_task(db: &mut Store, todo_id: u32) -> (r: Result<(), StoreError>)
    requires
        old(db).wf(),
    ensures
        final(db).wf(),
        r is Ok <==> old(db)@.has_task(todo_id),
        final(db)@ == old(db)@.without_task(todo_id).without_labels_of(todo_id),
        !final(db)@.has_task(todo_id),
        final(db)@.labels_of(todo_id) == Seq::<Seq<char>>::empty(),
        r is Err ==> r == Err::<(), _>(StoreError::NotFound),
{
    let found = db.find_task(todo_id);
    let ghost gone = |t: TaskRecord| t.id != todo_id;
    let ghost detached = |l: LabelRecord| l.todo_id != todo_id;
    if let Some(i) = found {
        db.tasks.remove(i);
        proof {
            assert forall|k: int| 0 <= k < old(db)@.tasks.len() implies (gone(
                #[trigger] old(db)@.tasks[k],
            ) <==> k != i) by {
                if k < i {
                    assert(old(db)@.tasks[k].id < old(db)@.tasks[i as int].id);
                } else if i < k {
                    assert(old(db)@.tasks[i as int].id < old(db)@.tasks[k].id);
                }
            }
            lemma_filter_removes_one(old(db)@.tasks, gone, i as int);
            assert(db@.tasks =~= old(db)@.tasks.remove(i as int));
        }
    } else {
        proof {
            lemma_filter_keeps_all(old(db)@.tasks, gone);
            assert(db@.tasks =~= old(db)@.tasks);
        }
    }
    let mut rows: Vec<LabelRow> = Vec::new();
    core::mem::swap(&mut db.labels, &mut rows);
    db.labels = labels_without(rows, todo_id);
    proof {
        let before = old(db)@;
        assert(db@.tasks == before.tasks.filter(gone));
        assert(db@.labels == before.labels.filter(detached));
        lemma_filter_members(before.tasks, gone);
        lemma_filter_keeps_order(before.tasks, gone, |a: TaskRecord, b: TaskRecord| a.id < b.id);
        lemma_filter_members(before.labels, detached);
        lemma_filter_keeps_order(before.labels, detached, |a: LabelRecord, b: LabelRecord| a != b);
        assert forall|k: int| 0 <= k < db@.tasks.len() implies {
            &&& 1 <= (#[trigger] db@.tasks[k]).id < db@.next_task_id
            &&& db@.tasks[k].consistent()
            &&& db@.tasks[k].refs_id matches Some(r) ==> 1 <= r <= db@.refs.len()
        } by {
            assert(before.tasks.contains(db@.tasks[k]));
        }
        assert forall|k: int| 0 <= k < db@.labels.len() implies utf8_len(
            (#[trigger] db@.labels[k]).label,
        ) <= LABEL_LIMIT by {
            assert(before.labels.contains(db@.labels[k]));
        }
        assert(db@.tasks_wf());
        assert(db@.labels_wf());
        lemma_filter_keeps_none(db@.labels, |l: LabelRecord| l.todo_id == todo_id);
        assert(db@.labels_of(todo_id) =~= Seq::<Seq<char>>::empty());
        if !before.initialized {
            assert(db@.tasks =~= Seq::empty());
            assert(db@.labels =~= Seq::empty());
        }
    }
    match found {
        Some(_) => Ok(()),
        None => Err(StoreError::NotFound),
    }
}

/// Adds an open step with the description `step_description` to the task
/// `todo_id` and returns its number: one more than the highest number among
/// the task's steps, or 0 if it has none.
pub fn add_step(db: &mut Store, todo_id: u32, step_description: &str) -> (r: Result<
    u32,
    StoreError,
>)
    requires
        old(db).wf(),
    ensures
        final(db).wf(),
        r is Ok <==> old(db)@.initialized && old(db)@.next_step_of(todo_id) <= u32::MAX,
        r matches Ok(step_id) ==> step_id == old(db)@.next_step_of(todo_id) && !old(db)@.has_step(
            todo_id,
            step_id,
        ) && final(db)@ == old(db)@.with_new_step(todo_id, step_description@),
        r matches Err(e) ==> final(db)@ == old(db)@ && e == if old(db)@.initialized {
            StoreError::StoreUnavailable
        } else {
            StoreError::NotFound
        },
{
    if !db.initialized {
        return Err(StoreError::NotFound);
    }
    let ghost mine = |s: StepView| s.todo_id == todo_id;
    let mut next: u64 = 0;
    let mut i: usize = 0;
    proof {
        lemma_filter_keeps_none(db@.steps.take(0), mine);
    }
    while i < db.steps.len()
        invariant
            0 <= i <= db.steps.len(),
            db.wf(),
            mine == |s: StepView| s.todo_id == todo_id,
            next <= u32::MAX + 1,
            next == if db@.steps.take(i as int).filter(mine).len() == 0 {
                0
            } else {
                db@.steps.take(i as int).filter(mine).last().step_id + 1
            },
            forall|k: int|
                0 <= k < i && (#[trigger] db@.steps[k]).todo_id == todo_id ==> db@.steps[k].step_id
                    < next,
        decreases db.steps.len() - i,
    {
        proof {
            lemma_filter_next(db@.steps, mine, i as int);
            assert(db@.steps[i as int] == db.steps[i as int]@);
        }
        if db.steps[i].todo_id == todo_id {
            next = db.steps[i].step_id as u64 + 1;
        }
        i = i + 1;
    }
    proof {
        lemma_filter_all(db@.steps, mine);
    }
    if next > u32::MAX as u64 {
        return Err(StoreError::StoreUnavailable);
    }
    let step_id: u32 = next as u32;
    db.steps.push(
        Step {
            todo_id,
            step_id,
            descr: String::from_str(step_description),
            completion_date: None,
        },
    );
    proof {
        let before = old(db)@;
        assert(db@.steps =~= before.steps.push(new_step(todo_id, step_id, step_description@)));
        assert(db@.tasks =~= before.tasks);
        assert(db@.labels == before.labels);
        assert(db@.refs == before.refs);
        assert forall|a: int, b: int|
            0 <= a < b < db@.steps.len() && (#[trigger] db@.steps[a]).todo_id == (
            #[trigger] db@.steps[b]).todo_id implies db@.steps[a].step_id < db@.steps[b].step_id by {
            if b < before.steps.len() {
                assert(before.steps[a].todo_id == before.steps[b].todo_id);
            } else {
                assert(before.steps[a].todo_id == todo_id);
            }
        }
    }
    Ok(step_id)
}

/// The step `step_id` of the task `todo_id`, open or not.
pub fn get_step(db: &Store, todo_id: u32, step_id: u32) -> (r: Result<Step, StoreError>)
    requires
        db.wf(),
    ensures
        r is Ok <==> db@.has_step(todo_id, step_id),
        r matches Ok(step) ==> step@ == db@.step(todo_id, step_id),
        r is Err ==> r == Err::<Step, _>(StoreError::NotFound),
{
    match db.find_step(todo_id, step_id) {
        Some(i) => {
            proof {
                assert(db@.steps[i as int] == db.steps[i as int]@);
                lemma_step_at(db@, todo_id, step_id, i as int);
            }
            Ok(db.steps[i].clone())
        },
        None => Err(StoreError::NotFound),
    }
}

/// The open steps of the task `todo_id`, in growing order of their numbers.
pub fn get_steps(db: &Store, todo_id: u32) -> (r: Result<Vec<Step>, StoreError>)
    ensures
        r is Ok <==> db@.initialized,
        r matches Ok(steps) ==> step_views(steps@) == db@.open_steps_of(todo_id),
        r is Err ==> r == Err::<Vec<Step>, _>(StoreError::NotFound),
{
    if !db.initialized {
        return Err(StoreError::NotFound);
    }
    let ghost pred = |s: StepView| s.todo_id == todo_id && s.is_open();
    let mut out: Vec<Step> = Vec::new();
    let mut i: usize = 0;
    proof {
        lemma_filter_keeps_none(db@.steps.take(0), pred);
        assert(step_views(out@) =~= db@.steps.take(0).filter(pred));
    }
    while i < db.steps.len()
        invariant
            0 <= i <= db.steps.len(),
            pred == |s: StepView| s.todo_id == todo_id && s.is_open(),
            step_views(out@) == db@.steps.take(i as int).filter(pred),
        decreases db.steps.len() - i,
    {
        proof {
            lemma_filter_next(db@.steps, pred, i as int);
            assert(db@.steps[i as int] == db.steps[i as int]@);
        }
        if db.steps[i].todo_id == todo_id && db.steps[i].completion_date.is_none() {
            let ghost collected = step_views(out@);
            out.push(db.steps[i].clone());
            assert(step_views(out@) =~= collected.push(db@.steps[i as int]));
        }
        i = i + 1;
    }
    proof {
        lemma_filter_all(db@.steps, pred);
    }
    Ok(out)
}

/// Completes the step `step_id` of the task `todo_id` at the time `now`.
pub fn complete_step(db: &mut Store, todo_id: u32, step_id: u32, now: i64) -> (r: Result<
    (),
    StoreError,
>)
    requires
        old(db).wf(),
    ensures
        final(db).wf(),
        r is Ok <==> old(db)@.has_step(todo_id, step_id),
        r is Ok ==> final(db)@ == old(db)@.with_step_completed(todo_id, step_id, now),
        r is Err ==> r == Err::<(), _>(StoreError::NotFound) && final(db)@ == old(db)@,
{
    match db.find_step(todo_id, step_id) {
        Some(i) => {
            db.steps[i].completion_date = Some(now);
            proof {
                let before = old(db)@;
                let after = before.with_step_completed(todo_id, step_id, now);
                assert(db@.tasks =~= before.tasks);
                assert forall|k: int| 0 <= k < before.steps.len() implies db@.steps[k]
                    == after.steps[k] by {
                    if k < i {
                        assert(before.steps[k].todo_id == todo_id ==> before.steps[k].step_id
                            < before.steps[i as int].step_id);
                    } else if i < k {
                        assert(before.steps[k].todo_id == todo_id ==> before.steps[i as int].step_id
                            < before.steps[k].step_id);
                    }
                }
                assert(db@.steps =~= after.steps);
            }
            Ok(())
        },
        None => Err(StoreError::NotFound),
    }
}

/// Completes every open step of the task `todo_id` at the time `now`. A task
/// without open steps is no error.
pub fn complete_steps(db: &mut Store, todo_id: u32, now: i64) -> (r: Result<(), StoreError>)
    requires
        old(db).wf(),
    ensures
        final(db).wf(),
        r is Ok <==> old(db)@.initialized,
        r is Ok ==> final(db)@ == old(db)@.with_steps_completed(todo_id, now),
        final(db)@.open_steps_of(todo_id) == Seq::<StepView>::empty(),
        r is Err ==> r == Err::<(), _>(StoreError::NotFound) && final(db)@ == old(db)@,
{
    let ghost open_here = |s: StepView| s.todo_id == todo_id && s.is_open();
    if !db.initialized {
        proof {
            lemma_filter_keeps_none(db@.steps, open_here);
        }
        return Err(StoreError::NotFound);
    }
    let ghost before = old(db)@;
    let ghost after = before.with_steps_completed(todo_id, now);
    let mut i: usize = 0;
    while i < db.steps.len()
        invariant
            0 <= i <= db.steps.len(),
            before == old(db)@,
            after == before.with_steps_completed(todo_id, now),
            db@.steps.len() == before.steps.len(),
            forall|k: int| 0 <= k < i ==> #[trigger] db@.steps[k] == after.steps[k],
            forall|k: int| i <= k < db.steps.len() ==> #[trigger] db@.steps[k] == before.steps[k],
            db@.tasks == before.tasks,
            db@.labels == before.labels,
            db@.refs == before.refs,
            db@.initialized == before.initialized,
            db@.next_task_id == before.next_task_id,
        decreases db.steps.len() - i,
    {
        let ghost entry = db@;
        let ghost rows = db.steps@;
        if db.steps[i].todo_id == todo_id && db.steps[i].completion_date.is_none() {
            db.steps[i].completion_date = Some(now);
        }
        proof {
            assert(entry.steps[i as int] == rows[i as int]@);
            assert(db@.steps[i as int] == db.steps[i as int]@);
            assert(db@.steps[i as int] == after.steps[i as int]);
            assert forall|k: int| 0 <= k < db.steps.len() && k != i implies #[trigger] db@.steps[k]
                == entry.steps[k] by {
                assert(db.steps[k] == rows[k]);
                assert(db@.steps[k] == db.steps[k]@);
                assert(entry.steps[k] == rows[k]@);
            }
            assert(db@.tasks =~= entry.tasks);
            assert(db@.labels =~= entry.labels);
            assert(db@.refs =~= entry.refs);
        }
        i = i + 1;
    }
    proof {
        assert(db@.steps =~= after.steps);
        assert forall|k: int| 0 <= k < db@.steps.len() implies !open_here(
            #[trigger] db@.steps[k],
        ) by {
            assert(db@.steps[k] == after.steps[k]);
        }
        lemma_filter_keeps_none(db@.steps, open_here);
        assert forall|a: int, b: int|
            0 <= a < b < db@.steps.len() && (#[trigger] db@.steps[a]).todo_id == (
            #[trigger] db@.steps[b]).todo_id implies db@.steps[a].step_id < db@.steps[b].step_id by {
            assert(before.steps[a].todo_id == before.steps[b].todo_id);
        }
    }
    Ok(())
}

/// The rows of `rows` that are not steps of the task `id`, or with `only`
/// given, that are not its step of that number; in order.
fn steps_without(rows: Vec<Step>, id: u32, only: Option<u32>) -> (kept: Vec<Step>)
    ensures
        step_views(kept@) == step_views(rows@).filter(
            |s: StepView| !(s.todo_id == id && (only is None || only == Some(s.step_id))),
        ),
{
    let mut kept: Vec<Step> = Vec::new();
    let ghost all = step_views(rows@);
    let ghost pred = |s: StepView| !(s.todo_id == id && (only is None || only == Some(s.step_id)));
    proof {
        lemma_filter_keeps_none(all.take(0), pred);
        assert(step_views(kept@) =~= all.take(0).filter(pred));
    }
    for row in it: rows
        invariant
            it.seq() == rows@,
            all == step_views(rows@),
            pred == |s: StepView|
                !(s.todo_id == id && (only is None || only == Some(s.step_id))),
            step_views(kept@) == all.take(it.index()).filter(pred),
    {
        proof {
            lemma_filter_next(all, pred, it.index());
        }
        let drop = row.todo_id == id && match only {
            Some(n) => row.step_id == n,
            None => true,
        };
        if !drop {
            kept.push(row);
            assert(step_views(kept@) =~= all.take(it.index()).filter(pred).push(
                all[it.index()],
            ));
        }
    }
    proof {
        lemma_filter_all(all, pred);
    }
    kept
}

/// Removing steps of one task leaves a well formed store.
proof fn lemma_without_steps_wf(d: Database, id: u32, only: Option<u32>)
    requires
        d.wf(),
    ensures
        d.without_steps(id, only).wf(),
{
    let pred = |s: StepView| !(s.todo_id == id && (only is None || only == Some(s.step_id)));
    lemma_filter_members(d.steps, pred);
    lemma_filter_keeps_order(
        d.steps,
        pred,
        |a: StepView, b: StepView| a.todo_id == b.todo_id ==> a.step_id < b.step_id,
    );
    if !d.initialized {
        assert(d.steps.filter(pred) =~= Seq::empty());
    }
}

/// Removes the step `step_id` of the task `todo_id`.
pub fn delete_step(db: &mut Store, todo_id: u32, step_id: u32) -> (r: Result<(), StoreError>)
    requires
        old(db).wf(),
    ensures
        final(db).wf(),
        r is Ok <==> old(db)@.has_step(todo_id, step_id),
        r is Ok ==> final(db)@ == old(db)@.without_step(todo_id, step_id),
        !final(db)@.has_step(todo_id, step_id),
        r is Err ==> r == Err::<(), _>(StoreError::NotFound) && final(db)@ == old(db)@,
{
    if db.find_step(todo_id, step_id).is_none() {
        return Err(StoreError::NotFound);
    }
    let mut rows: Vec<Step> = Vec::new();
    core::mem::swap(&mut db.steps, &mut rows);
    db.steps = steps_without(rows, todo_id, Some(step_id));
    proof {
        let before = old(db)@;
        lemma_without_steps_wf(before, todo_id, Some(step_id));
        assert(db@.tasks =~= before.tasks);
        assert(db@.labels =~= before.labels);
        assert(db@.refs =~= before.refs);
        assert(db@.steps == before.without_step(todo_id, step_id).steps);
        lemma_filter_members(
            before.steps,
            |s: StepView| !(s.todo_id == todo_id && (Some(step_id) is None || Some(step_id) == Some(
                s.step_id,
            ))),
        );
    }
    Ok(())
}

/// Removes every step of the task `todo_id`. A task without steps is no
/// error.
pub fn delete_steps(db: &mut Store, todo_id: u32) -> (r: Result<(), StoreError>)
    requires
        old(db).wf(),
    ensures
        final(db).wf(),
        r is Ok <==> old(db)@.initialized,
        r is Ok ==> final(db)@ == old(db)@.without_steps_of(todo_id),
        final(db)@.steps_of(todo_id) == Seq::<StepView>::empty(),
        r is Err ==> r == Err::<(), _>(StoreError::NotFound) && final(db)@ == old(db)@,
{
    if !db.initialized {
        proof {
            lemma_filter_keeps_none(db@.steps, |s: StepView| s.todo_id == todo_id);
        }
        return Err(StoreError::NotFound);
    }
    let mut rows: Vec<Step> = Vec::new();
    core::mem::swap(&mut db.steps, &mut rows);
    db.steps = steps_without(rows, todo_id, None);
    proof {
        let before = old(db)@;
        lemma_without_steps_wf(before, todo_id, None);
        assert(db@.tasks =~= before.tasks);
        assert(db@.labels =~= before.labels);
        assert(db@.refs =~= before.refs);
        assert(db@.steps == before.without_steps_of(todo_id).steps);
        lemma_filter_members(
            before.steps,
            |s: StepView| !(s.todo_id == todo_id && (None::<u32> is None || None::<u32> == Some(
                s.step_id,
            ))),
        );
        lemma_filter_keeps_none(db@.steps, |s: StepView| s.todo_id == todo_id);
    }
    Ok(())
}

/// Completes the task `todo_id` at the time `now`: in one step the task gets
/// its completion date and the status `Done`, and each of its open steps
/// is completed at `now`.
pub fn complete_task(db: &mut Store, todo_id: u32, now: i64) -> (r: Result<(), StoreError>)
    requires
        old(db).wf(),
    ensures
        final(db).wf(),
        r is Ok <==> old(db)@.has_task(todo_id) && old(db)@.task(todo_id).status != Status::Done,
        r is Ok ==> final(db)@ == old(db)@.with_task_completed(todo_id, now),
        r is Ok ==> final(db)@.open_steps_of(todo_id) == Seq::<StepView>::empty(),
        r matches Err(e) ==> final(db)@ == old(db)@ && e == if old(db)@.has_task(todo_id) {
            StoreError::InvalidTransition
        } else {
            StoreError::NotFound
        },
{
    match db.find_task(todo_id) {
        Some(i) => {
            proof {
                lemma_task_at(db@, todo_id, i as int);
            }
            if db.tasks[i].status == Status::Done {
                return Err(StoreError::InvalidTransition);
            }
            db.tasks[i].status = Status::Done;
            db.tasks[i].completion_date = Some(now);
            proof {
                let change = |t: TaskRecord| t.completed_at(now);
                lemma_change_at(old(db)@, todo_id, i as int, change);
                assert(db@.tasks =~= old(db)@.tasks.update(i as int, change(old(db)@.tasks[i as int])));
            }
            let _ = complete_steps(db, todo_id, now);
            Ok(())
        },
        None => Err(StoreError::NotFound),
    }
}

/// Appends to `out` the open tasks of priority `priority`, oldest first.
fn collect_open(db: &Store, priority: Priority, out: &mut Vec<Task>)
    ensures
        task_views(final(out)@) == task_views(old(out)@) + db@.open_tasks_at(priority),
{
    let ghost pred = |t: TaskRecord| t.is_open() && t.priority == priority;
    let ghost shown = |t: TaskRecord| t.as_task();
    let ghost start = task_views(old(out)@);
    let mut i: usize = 0;
    proof {
        lemma_filter_keeps_none(db@.tasks.take(0), pred);
        assert(task_views(out@) =~= start + db@.tasks.take(0).filter(pred).map_values(shown));
    }
    while i < db.tasks.len()
        invariant
            0 <= i <= db.tasks.len(),
            pred == |t: TaskRecord| t.is_open() && t.priority == priority,
            shown == |t: TaskRecord| t.as_task(),
            task_views(out@) == start + db@.tasks.take(i as int).filter(pred).map_values(shown),
        decreases db.tasks.len() - i,
    {
        proof {
            lemma_filter_next(db@.tasks, pred, i as int);
            assert(db@.tasks[i as int] == db.tasks[i as int]@);
        }
        if db.tasks[i].completion_date.is_none() && db.tasks[i].priority == priority {
            let ghost collected = task_views(out@);
            let row = &db.tasks[i];
            out.push(
                Task {
                    id: row.id,
                    descr: row.descr.clone(),
                    priority: row.priority,
                    status: row.status,
                    storypoints: row.storypoints,
                },
            );
            proof {
                let kept = db@.tasks.take(i as int).filter(pred);
                assert(task_views(out@) =~= collected.push(db@.tasks[i as int].as_task()));
                assert(kept.push(db@.tasks[i as int]).map_values(shown) =~= kept.map_values(
                    shown,
                ).push(db@.tasks[i as int].as_task()));
                assert(task_views(out@) =~= start + kept.push(db@.tasks[i as int]).map_values(
                    shown,
                ));
            }
        }
        i = i + 1;
    }
    proof {
        lemma_filter_all(db@.tasks, pred);
    }
}

/// The open tasks, most urgent first; among tasks of one priority the oldest
/// first.
pub fn get_open_tasks(db: &Store) -> (r: Result<Vec<Task>, StoreError>)
    ensures
        r is Ok <==> db@.initialized,
        r matches Ok(tasks) ==> task_views(tasks@) == db@.open_tasks(),
        r is Err ==> r == Err::<Vec<Task>, _>(StoreError::NotFound),
{
    if !db.initialized {
        return Err(StoreError::NotFound);
    }
    let mut out: Vec<Task> = Vec::new();
    assert(task_views(out@) =~= Seq::empty());
    collect_open(db, Priority::Urgent, &mut out);
    collect_open(db, Priority::High, &mut out);
    collect_open(db, Priority::Normal, &mut out);
    collect_open(db, Priority::Low, &mut out);
    collect_open(db, Priority::Miserable, &mut out);
    assert(task_views(out@) =~= db@.open_tasks());
    Ok(out)
}

/// Whether `report` is the report of the completed tasks `done`: it holds
/// the same tasks, in growing order of completion date and, at one date, of
/// identifier.
pub open spec fn is_done_report(report: Seq<TaskDoneView>, done: Seq<TaskDoneView>) -> bool {
    &&& forall|i: int, j: int|
        0 <= i < j < report.len() ==> (#[trigger] report[i]).before(#[trigger] report[j])
    &&& forall|t: TaskDoneView| #[trigger] report.contains(t) <==> done.contains(t)
}

/// The completed tasks have one report and no other: the order of a report
/// leaves no choice.
pub proof fn lemma_done_report_unique(
    a: Seq<TaskDoneView>,
    b: Seq<TaskDoneView>,
    done: Seq<TaskDoneView>,
)
    requires
        is_done_report(a, done),
        is_done_report(b, done),
    ensures
        a == b,
    decreases a.len(),
{
    if a.len() == 0 {
        if b.len() > 0 {
            assert(b.contains(b[0]));
            assert(a.contains(b[0]));
        }
        assert(a =~= b);
    } else {
        let top = a.last();
        assert(a.contains(top));
        assert(b.contains(top));
        let k = choose|k: int| 0 <= k < b.len() && b[k] == top;
        assert(b.contains(b.last()));
        assert(a.contains(b.last()));
        let m = choose|m: int| 0 <= m < a.len() && a[m] == b.last();
        if k < b.len() - 1 {
            assert(b[k].before(b[b.len() - 1]));
            if m < a.len() - 1 {
                assert(a[m].before(a[a.len() - 1]));
            }
        }
        assert(b.last() == top);
        let shorter = a.drop_last();
        let other = b.drop_last();
        assert forall|t: TaskDoneView| #[trigger] other.contains(t) <==> shorter.contains(t) by {
            if other.contains(t) {
                let i = choose|i: int| 0 <= i < other.len() && other[i] == t;
                assert(b[i] == t);
                assert(b[i].before(b[b.len() - 1]));
                assert(b.contains(t));
                assert(a.contains(t));
                let j = choose|j: int| 0 <= j < a.len() && a[j] == t;
                assert(shorter[j] == t);
            }
            if shorter.contains(t) {
                let i = choose|i: int| 0 <= i < shorter.len() && shorter[i] == t;
                assert(a[i] == t);
                assert(a[i].before(a[a.len() - 1]));
                assert(a.contains(t));
                assert(b.contains(t));
                let j = choose|j: int| 0 <= j < b.len() && b[j] == t;
                assert(other[j] == t);
            }
        }
        assert forall|i: int, j: int| 0 <= i < j < shorter.len() implies (
        #[trigger] shorter[i]).before(#[trigger] shorter[j]) by {
            assert(shorter[i] == a[i] && shorter[j] == a[j]);
        }
        assert forall|i: int, j: int| 0 <= i < j < other.len() implies (#[trigger] other[i]).before(
            #[trigger] other[j],
        ) by {
            assert(other[i] == b[i] && other[j] == b[j]);
        }
        lemma_done_report_unique(shorter, other, shorter);
        assert(a =~= shorter.push(top));
        assert(b =~= other.push(top));
    }
}

/// The completed tasks in growing order of completion date; tasks completed
/// at one date in growing order of identifier.
pub fn get_done_tasks(db: &Store) -> (r: Result<Vec<TaskDone>, StoreError>)
    requires
        db.wf(),
    ensures
        r is Ok <==> db@.initialized,
        r matches Ok(tasks) ==> is_done_report(done_views(tasks@), db@.done_tasks()),
        r is Err ==> r == Err::<Vec<TaskDone>, _>(StoreError::NotFound),
{
    if !db.initialized {
        return Err(StoreError::NotFound);
    }
    let ghost pred = |t: TaskRecord| !t.is_open();
    let ghost shown = |t: TaskRecord| t.as_done();
    let mut out: Vec<TaskDone> = Vec::new();
    let mut i: usize = 0;
    proof {
        lemma_filter_keeps_none(db@.tasks.take(0), pred);
        assert(db@.tasks.take(0).filter(pred).map_values(shown) =~= Seq::empty());
        assert(done_views(out@) =~= Seq::empty());
    }
    while i < db.tasks.len()
        invariant
            0 <= i <= db.tasks.len(),
            db.wf(),
            pred == |t: TaskRecord| !t.is_open(),
            shown == |t: TaskRecord| t.as_done(),
            is_done_report(
                done_views(out@),
                db@.tasks.take(i as int).filter(pred).map_values(shown),
            ),
            forall|k: int|
                0 <= k < out.len() && i < db.tasks.len() ==> (#[trigger] out[k]).id
                    < db.tasks[i as int].id,
        decreases db.tasks.len() - i,
    {
        let ghost seen = db@.tasks.take(i as int).filter(pred).map_values(shown);
        let ghost report = done_views(out@);
        proof {
            lemma_filter_next(db@.tasks, pred, i as int);
            assert(db@.tasks[i as int] == db.tasks[i as int]@);
            if i + 1 < db.tasks.len() {
                assert(db@.tasks[i as int].id < db@.tasks[i + 1].id);
                assert(db@.tasks[i + 1] == db.tasks[i + 1]@);
            }
        }
        if let Some(date) = db.tasks[i].completion_date {
            let mut at: usize = out.len();
            while at > 0 && out[at - 1].completion_date > date
                invariant
                    0 <= at <= out.len(),
                    forall|k: int| at <= k < out.len() ==> (#[trigger] out[k]).completion_date > date,
                decreases at,
            {
                at = at - 1;
            }
            let row = &db.tasks[i];
            let entry = TaskDone {
                id: row.id,
                descr: row.descr.clone(),
                completion_date: date,
                storypoints: row.storypoints,
            };
            let ghost added = entry@;
            let ghost prior = out@;
            proof {
                assert(forall|k: int| 0 <= k < prior.len() ==> (#[trigger] prior[k])@ == report[k]);
                assert(forall|k: int|
                    at <= k < prior.len() ==> (#[trigger] prior[k]).completion_date > date);
                assert(forall|k: int| 0 <= k < prior.len() ==> (#[trigger] prior[k]).id < added.id);
                assert(at > 0 ==> prior[at - 1].completion_date <= date);
            }
            out.insert(at, entry);
            proof {
                let grown = done_views(out@);
                let kept = db@.tasks.take(i as int).filter(pred);
                assert(added == db@.tasks[i as int].as_done());
                assert(grown =~= report.insert(at as int, added));
                assert(kept.push(db@.tasks[i as int]).map_values(shown) =~= seen.push(added));
                assert forall|a: int, b: int| 0 <= a < b < grown.len() implies (
                #[trigger] grown[a]).before(#[trigger] grown[b]) by {
                    if b < at {
                        assert(grown[a] == report[a] && grown[b] == report[b]);
                    } else if b == at {
                        assert(grown[a] == report[a]);
                        assert(report[a] == prior[a]@);
                        if a < at - 1 {
                            assert(report[a].before(report[at - 1]));
                        }
                        assert(report[at - 1] == prior[at - 1]@);
                    } else if a < at {
                        assert(grown[a] == report[a] && grown[b] == report[b - 1]);
                    } else if a == at {
                        assert(grown[b] == report[b - 1]);
                        assert(report[b - 1] == prior[b - 1]@);
                    } else {
                        assert(grown[a] == report[a - 1] && grown[b] == report[b - 1]);
                    }
                }
                assert forall|t: TaskDoneView| #[trigger] grown.contains(t) <==> seen.push(
                    added,
                ).contains(t) by {
                    if grown.contains(t) {
                        let k = choose|k: int| 0 <= k < grown.len() && grown[k] == t;
                        if k < at {
                            assert(report[k] == t);
                        } else if k > at {
                            assert(report[k - 1] == t);
                        }
                        if t != added {
                            assert(report.contains(t));
                            assert(seen.contains(t));
                            let m = choose|m: int| 0 <= m < seen.len() && seen[m] == t;
                            assert(seen.push(added)[m] == t);
                        } else {
                            assert(seen.push(added)[seen.len() as int] == t);
                        }
                    }
                    if seen.push(added).contains(t) {
                        let m = choose|m: int| 0 <= m < seen.len() + 1 && seen.push(added)[m] == t;
                        if m < seen.len() {
                            assert(seen[m] == t);
                            assert(seen.contains(t));
                            assert(report.contains(t));
                            let k = choose|k: int| 0 <= k < report.len() && report[k] == t;
                            if k < at {
                                assert(grown[k] == t);
                            } else {
                                assert(grown[k + 1] == t);
                            }
                        } else {
                            assert(grown[at as int] == t);
                        }
                    }
                }
                assert forall|k: int| 0 <= k < out.len() && i + 1 < db.tasks.len() implies (
                #[trigger] out[k]).id < db.tasks[i + 1].id by {
                    if k < at {
                        assert(out[k] == prior[k]);
                    } else if k > at {
                        assert(out[k] == prior[k - 1]);
                    }
                }
            }
        }
        i = i + 1;
    }
    proof {
        lemma_filter_all(db@.tasks, pred);
    }
    Ok(out)
}

} // verus!
