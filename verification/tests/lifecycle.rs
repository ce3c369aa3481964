use myrello::db::{
    add_labels, add_step, add_task, complete_step, complete_task, get_labels, get_open_tasks,
    get_refs, get_step, get_steps, increase_priority, init, set_reference,
};
use myrello::lifecycle::{
    block_task, create_task, descr_to_string, edit_task, remove_task, start_task, Failure, Field,
};
use myrello::store::{Store, StoreError};
use myrello::task::{Priority, Status};

fn ready() -> Store {
    let mut db = Store::new();
    init(&mut db, false).unwrap();
    db
}

fn strings(items: &[&str]) -> Vec<String> {
    items.iter().map(|s| s.to_string()).collect()
}

#[test]
fn descr_to_string_joins_the_words() {
    assert_eq!(descr_to_string(&strings(&["write", "spec"])), "write spec ");
    assert_eq!(descr_to_string(&strings(&["one"])), "one ");
    assert_eq!(descr_to_string(&[]), "");
}

#[test]
fn scenario_create_label_start_and_raise() {
    let mut db = ready();
    let id = create_task(&mut db, &strings(&["write", "spec"]), &[], &None, None, &None, 100)
        .unwrap();
    let row = &db.tasks[0];
    assert_eq!(row.descr, "write spec");
    assert_eq!(row.priority, Priority::Normal);
    assert_eq!(row.status, Status::Todo);
    assert_eq!(row.storypoints, 0);

    add_labels(&mut db, id, &strings(&["docs", "urgent-label"])).unwrap();
    assert_eq!(get_labels(&db, id), Ok(strings(&["docs", "urgent-label"])));

    assert_eq!(get_step(&db, id, 0).unwrap().completion_date, None);
    assert_eq!(start_task(&mut db, id, 200), Ok(()));
    assert_eq!(db.tasks[0].status, Status::InProgress);
    assert_eq!(get_step(&db, id, 0).unwrap().descr, "start");
    assert_eq!(get_step(&db, id, 0).unwrap().completion_date, Some(200));

    assert_eq!(db.tasks[0].priority.rank(), 3);
    increase_priority(&mut db, id).unwrap();
    assert_eq!(db.tasks[0].priority, Priority::High);
    assert_eq!(db.tasks[0].priority.rank(), 2);
    increase_priority(&mut db, id).unwrap();
    assert_eq!(db.tasks[0].priority, Priority::Urgent);
    assert_eq!(db.tasks[0].priority.rank(), 1);
    assert_eq!(increase_priority(&mut db, id), Ok(()));
    assert_eq!(db.tasks[0].priority, Priority::Urgent);
    assert!(db.is_wf());
}

#[test]
fn scenario_delete_a_task_with_steps_and_a_label() {
    let mut db = ready();
    let keep = add_task(&mut db, "keep", 1).unwrap();
    add_step(&mut db, keep, "kept step").unwrap();
    add_labels(&mut db, keep, &strings(&["kept"])).unwrap();
    let id = add_task(&mut db, "drop", 2).unwrap();
    add_step(&mut db, id, "one").unwrap();
    add_step(&mut db, id, "two").unwrap();
    add_labels(&mut db, id, &strings(&["gone"])).unwrap();

    assert_eq!(remove_task(&mut db, id), Ok(()));

    let open: Vec<u32> = get_open_tasks(&db).unwrap().iter().map(|t| t.id).collect();
    assert_eq!(open, vec![keep]);
    assert_eq!(get_labels(&db, id), Ok(Vec::new()));
    assert!(get_steps(&db, id).unwrap().is_empty());
    assert_eq!(get_step(&db, id, 0).err(), Some(StoreError::NotFound));
    assert_eq!(get_refs(&db, id), Err(StoreError::NotFound));
    assert!(db.steps.iter().all(|s| s.todo_id != id));
    assert!(db.labels.iter().all(|l| l.todo_id != id));
    assert_eq!(db.steps.len(), 1);
    assert_eq!(db.labels.len(), 1);
    assert!(db.is_wf());
}

#[test]
fn remove_task_of_a_missing_task() {
    let mut db = ready();
    add_step(&mut db, 5, "stray").unwrap();
    add_labels(&mut db, 5, &strings(&["stray"])).unwrap();
    assert_eq!(remove_task(&mut db, 5), Err(StoreError::NotFound));
    assert!(db.steps.is_empty());
    assert!(db.labels.is_empty());
    assert_eq!(remove_task(&mut Store::new(), 5), Err(StoreError::NotFound));
}

#[test]
fn start_leaves_a_completed_first_step_alone() {
    let mut db = ready();
    let id = add_task(&mut db, "t", 1).unwrap();
    add_step(&mut db, id, "start").unwrap();
    complete_step(&mut db, id, 0, 50).unwrap();
    assert_eq!(start_task(&mut db, id, 60), Ok(()));
    assert_eq!(db.steps[0].completion_date, Some(50));
    assert_eq!(db.tasks[0].status, Status::InProgress);
}

#[test]
fn start_without_a_first_step() {
    let mut db = ready();
    let id = add_task(&mut db, "t", 1).unwrap();
    assert_eq!(start_task(&mut db, id, 60), Ok(()));
    assert_eq!(db.tasks[0].status, Status::InProgress);
    assert!(db.steps.is_empty());
}

#[test]
fn start_completes_step_zero_only() {
    let mut db = ready();
    let id = add_task(&mut db, "t", 1).unwrap();
    add_step(&mut db, id, "start").unwrap();
    add_step(&mut db, id, "next").unwrap();
    start_task(&mut db, id, 60).unwrap();
    assert_eq!(db.steps[0].completion_date, Some(60));
    assert_eq!(db.steps[1].completion_date, None);
}

#[test]
fn start_and_block_reach_each_other() {
    let mut db = ready();
    let id = add_task(&mut db, "t", 1).unwrap();
    assert_eq!(block_task(&mut db, id), Ok(()));
    assert_eq!(db.tasks[0].status, Status::Block);
    assert_eq!(start_task(&mut db, id, 5), Ok(()));
    assert_eq!(db.tasks[0].status, Status::InProgress);
    assert_eq!(start_task(&mut db, id, 6), Ok(()));
    assert_eq!(db.tasks[0].status, Status::InProgress);
    assert_eq!(block_task(&mut db, id), Ok(()));
    assert_eq!(db.tasks[0].status, Status::Block);
}

#[test]
fn a_task_that_is_done_stays_done() {
    let mut db = ready();
    let id = add_task(&mut db, "t", 1).unwrap();
    complete_task(&mut db, id, 5).unwrap();
    assert_eq!(start_task(&mut db, id, 6), Err(StoreError::InvalidTransition));
    assert_eq!(block_task(&mut db, id), Err(StoreError::InvalidTransition));
    assert_eq!(complete_task(&mut db, id, 7), Err(StoreError::InvalidTransition));
    assert_eq!(db.tasks[0].status, Status::Done);
    assert_eq!(db.tasks[0].completion_date, Some(5));
    assert_eq!(start_task(&mut db, id + 1, 6), Err(StoreError::NotFound));
    assert_eq!(block_task(&mut db, id + 1), Err(StoreError::NotFound));
}

#[test]
fn create_task_with_every_attribute() {
    let mut db = ready();
    let id = create_task(
        &mut db,
        &strings(&["plan", "the", "release"]),
        &strings(&["work", " soon "]),
        &Some("high".to_string()),
        Some(5),
        &Some("ticket 12  ".to_string()),
        1000,
    )
    .unwrap();
    assert_eq!(id, 1);
    let row = &db.tasks[0];
    assert_eq!(row.descr, "plan the release");
    assert_eq!(row.creation_date, 1000);
    assert_eq!(row.priority, Priority::High);
    assert_eq!(row.storypoints, 5);
    assert_eq!(row.status, Status::Todo);
    assert_eq!(get_labels(&db, id), Ok(strings(&["work", "soon"])));
    assert_eq!(get_refs(&db, id), Ok("ticket 12".to_string()));
    let first = get_step(&db, id, 0).unwrap();
    assert_eq!(first.descr, "start");
    assert_eq!(first.completion_date, None);
    assert!(db.is_wf());
}

#[test]
fn create_task_that_fails_part_way_leaves_the_task() {
    let mut db = ready();
    let r = create_task(
        &mut db,
        &strings(&["half"]),
        &strings(&["l"]),
        &Some("pressing".to_string()),
        Some(5),
        &Some("ref".to_string()),
        1,
    );
    assert_eq!(r, Err(Failure { field: Field::Priority, error: StoreError::NotFound }));
    assert_eq!(db.tasks.len(), 1);
    assert_eq!(db.tasks[0].descr, "half");
    assert_eq!(db.tasks[0].priority, Priority::Normal);
    assert_eq!(db.tasks[0].storypoints, 0);
    assert_eq!(get_labels(&db, 1), Ok(strings(&["l"])));
    assert!(db.refs.is_empty());
    assert!(db.steps.is_empty());
    assert!(db.is_wf());
}

#[test]
fn create_task_in_a_store_that_is_not_set_up() {
    let mut db = Store::new();
    let r = create_task(&mut db, &strings(&["x"]), &[], &None, None, &None, 1);
    assert_eq!(r, Err(Failure { field: Field::Task, error: StoreError::NotFound }));
    assert!(db.tasks.is_empty());
}

#[test]
fn create_task_numbers_the_first_step_after_stray_steps() {
    let mut db = ready();
    add_step(&mut db, 1, "stray").unwrap();
    let id = create_task(&mut db, &strings(&["x"]), &[], &None, None, &None, 1).unwrap();
    assert_eq!(id, 1);
    assert_eq!(get_step(&db, id, 1).unwrap().descr, "start");
}

#[test]
fn edit_task_applies_what_is_given() {
    let mut db = ready();
    let id = add_task(&mut db, "old", 1).unwrap();
    let r = edit_task(
        &mut db,
        id,
        &strings(&["new", "words"]),
        &Some("low".to_string()),
        Some(3),
        &Some("see there".to_string()),
        &Some("block".to_string()),
    );
    assert_eq!(r, Ok(()));
    let row = &db.tasks[0];
    assert_eq!(row.descr, "new words");
    assert_eq!(row.priority, Priority::Low);
    assert_eq!(row.storypoints, 3);
    assert_eq!(row.status, Status::Block);
    assert_eq!(get_refs(&db, id), Ok("see there".to_string()));
}

#[test]
fn edit_task_with_nothing_given_changes_nothing() {
    let mut db = ready();
    let id = add_task(&mut db, "old", 1).unwrap();
    assert_eq!(edit_task(&mut db, id, &[], &None, None, &None, &None), Ok(()));
    assert_eq!(db.tasks[0].descr, "old");
    // not even the task is looked up
    assert_eq!(edit_task(&mut db, id + 5, &[], &None, None, &None, &None), Ok(()));
}

#[test]
fn edit_task_cannot_set_the_final_status() {
    let mut db = ready();
    let id = add_task(&mut db, "old", 1).unwrap();
    let r = edit_task(&mut db, id, &strings(&["new"]), &None, None, &None, &Some("done".to_string()));
    assert_eq!(r, Err(Failure { field: Field::Status, error: StoreError::InvalidTransition }));
    // what came before the status stays
    assert_eq!(db.tasks[0].descr, "new");
    assert_eq!(db.tasks[0].status, Status::Todo);
    assert_eq!(db.tasks[0].completion_date, None);
}

#[test]
fn edit_task_failures_name_the_part() {
    let mut db = ready();
    let id = add_task(&mut db, "old", 1).unwrap();
    let missing = id + 1;
    assert_eq!(
        edit_task(&mut db, missing, &strings(&["x"]), &None, None, &None, &None),
        Err(Failure { field: Field::Description, error: StoreError::NotFound })
    );
    assert_eq!(
        edit_task(&mut db, id, &[], &Some("nope".to_string()), None, &None, &None),
        Err(Failure { field: Field::Priority, error: StoreError::NotFound })
    );
    assert_eq!(
        edit_task(&mut db, missing, &[], &None, Some(1), &None, &None),
        Err(Failure { field: Field::StoryPoints, error: StoreError::NotFound })
    );
    assert_eq!(
        edit_task(&mut db, missing, &[], &None, None, &Some("r".to_string()), &None),
        Err(Failure { field: Field::Reference, error: StoreError::NotFound })
    );
    assert_eq!(db.refs, strings(&["r"]));
    assert_eq!(
        edit_task(&mut db, id, &[], &None, None, &None, &Some("nope".to_string())),
        Err(Failure { field: Field::Status, error: StoreError::NotFound })
    );
    complete_task(&mut db, id, 4).unwrap();
    assert_eq!(
        edit_task(&mut db, id, &[], &None, None, &None, &Some("todo".to_string())),
        Err(Failure { field: Field::Status, error: StoreError::InvalidTransition })
    );
    // other attributes of a task that is done can still be edited
    assert_eq!(edit_task(&mut db, id, &strings(&["late"]), &None, Some(2), &None, &None), Ok(()));
    assert_eq!(db.tasks[0].descr, "late");
    assert!(db.is_wf());
}

#[test]
fn a_reference_can_be_set_again() {
    let mut db = ready();
    let id = add_task(&mut db, "t", 1).unwrap();
    set_reference(&mut db, id, "one").unwrap();
    edit_task(&mut db, id, &[], &None, None, &Some("two".to_string()), &None).unwrap();
    assert_eq!(get_refs(&db, id), Ok("two".to_string()));
    assert_eq!(db.refs.len(), 2);
}
