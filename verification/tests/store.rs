use myrello::store::{LabelRow, Store, TaskRow};
use myrello::task::{Priority, Status, Step};

fn task(id: u32) -> TaskRow {
    TaskRow {
        id,
        creation_date: 0,
        descr: format!("task {}", id),
        priority: Priority::Normal,
        status: Status::Todo,
        refs_id: None,
        storypoints: 0,
        completion_date: None,
    }
}

fn step(todo_id: u32, step_id: u32) -> Step {
    Step { todo_id, step_id, descr: String::new(), completion_date: None }
}

fn label(todo_id: u32, label: &str) -> LabelRow {
    LabelRow { todo_id, label: label.to_string() }
}

fn loaded() -> Store {
    Store {
        initialized: true,
        tasks: vec![task(1), task(3), task(4)],
        steps: vec![step(1, 0), step(3, 0), step(1, 2), step(9, 5)],
        labels: vec![label(1, "a"), label(3, "a"), label(1, "b")],
        refs: vec!["r1".to_string(), "r2".to_string()],
        next_task_id: 7,
    }
}

#[test]
fn a_new_store_is_well_formed_and_holds_nothing() {
    let db = Store::new();
    assert!(!db.initialized);
    assert!(db.tasks.is_empty());
    assert!(db.steps.is_empty());
    assert!(db.labels.is_empty());
    assert!(db.refs.is_empty());
    assert_eq!(db.next_task_id, 1);
    assert!(db.is_wf());
}

#[test]
fn a_store_put_together_from_rows_can_be_well_formed() {
    let mut db = loaded();
    assert!(db.is_wf());
    db.tasks[1].refs_id = Some(2);
    db.tasks[2].status = Status::Done;
    db.tasks[2].completion_date = Some(5);
    db.steps[0].completion_date = Some(1);
    assert!(db.is_wf());
}

#[test]
fn a_store_that_is_not_set_up_must_hold_nothing() {
    let mut db = loaded();
    db.initialized = false;
    assert!(!db.is_wf());
    let mut db = Store::new();
    db.next_task_id = 2;
    assert!(!db.is_wf());
    let mut db = Store::new();
    db.refs.push("r".to_string());
    assert!(!db.is_wf());
}

#[test]
fn task_identifiers_must_grow_and_stay_below_the_next() {
    let mut db = loaded();
    db.tasks.swap(0, 1);
    assert!(!db.is_wf());
    let mut db = loaded();
    db.tasks[1].id = 1;
    assert!(!db.is_wf());
    let mut db = loaded();
    db.tasks[0].id = 0;
    assert!(!db.is_wf());
    let mut db = loaded();
    db.next_task_id = 4;
    assert!(!db.is_wf());
    let mut db = loaded();
    db.next_task_id = 5;
    assert!(db.is_wf());
    let mut db = loaded();
    db.next_task_id = 0;
    assert!(!db.is_wf());
}

#[test]
fn a_completion_date_goes_with_the_status_done() {
    let mut db = loaded();
    db.tasks[0].status = Status::Done;
    assert!(!db.is_wf());
    db.tasks[0].completion_date = Some(3);
    assert!(db.is_wf());
    db.tasks[0].status = Status::Block;
    assert!(!db.is_wf());
}

#[test]
fn descriptions_labels_and_references_are_bounded() {
    let mut db = loaded();
    db.tasks[0].descr = "d".repeat(128);
    assert!(db.is_wf());
    db.tasks[0].descr = "d".repeat(129);
    assert!(!db.is_wf());
    let mut db = loaded();
    db.labels[0].label = "l".repeat(256);
    assert!(db.is_wf());
    db.labels[0].label = "l".repeat(257);
    assert!(!db.is_wf());
    let mut db = loaded();
    db.refs[1] = "r".repeat(1024);
    assert!(db.is_wf());
    db.refs[1] = "r".repeat(1025);
    assert!(!db.is_wf());
    // the bounds count bytes
    let mut db = loaded();
    db.tasks[0].descr = "\u{e9}".repeat(64);
    assert!(db.is_wf());
    db.tasks[0].descr = "\u{e9}".repeat(65);
    assert!(!db.is_wf());
}

#[test]
fn a_reference_must_exist() {
    let mut db = loaded();
    db.tasks[0].refs_id = Some(2);
    assert!(db.is_wf());
    db.tasks[0].refs_id = Some(3);
    assert!(!db.is_wf());
    db.tasks[0].refs_id = Some(0);
    assert!(!db.is_wf());
}

#[test]
fn steps_of_a_task_must_be_numbered_in_growing_order() {
    let mut db = loaded();
    db.steps[2].step_id = 0;
    assert!(!db.is_wf());
    let mut db = loaded();
    db.steps.swap(0, 2);
    assert!(!db.is_wf());
    let mut db = loaded();
    db.steps.swap(0, 1);
    assert!(db.is_wf());
}

#[test]
fn a_label_must_not_be_attached_twice() {
    let mut db = loaded();
    db.labels.push(label(1, "a"));
    assert!(!db.is_wf());
    let mut db = loaded();
    db.labels.push(label(2, "a"));
    assert!(db.is_wf());
}

#[test]
fn find_task_and_find_step() {
    let db = loaded();
    assert_eq!(db.find_task(1), Some(0));
    assert_eq!(db.find_task(4), Some(2));
    assert_eq!(db.find_task(2), None);
    assert_eq!(db.find_step(1, 2), Some(2));
    assert_eq!(db.find_step(9, 5), Some(3));
    assert_eq!(db.find_step(1, 1), None);
    assert_eq!(db.find_step(3, 2), None);
}

#[test]
fn from_rows_takes_rows_that_fit_together() {
    let rows = loaded();
    let db = Store::from_rows(rows.tasks, rows.steps, rows.labels, rows.refs, Some(7)).unwrap();
    assert!(db.initialized);
    assert_eq!(db.next_task_id, 7);
    assert_eq!(db.tasks.len(), 3);
    assert_eq!(db.steps.len(), 4);
    assert_eq!(db.labels.len(), 3);
    assert_eq!(db.refs.len(), 2);
    assert!(db.is_wf());
}

#[test]
fn from_rows_goes_by_the_last_task_without_a_counter() {
    let rows = loaded();
    let db = Store::from_rows(rows.tasks, rows.steps, rows.labels, rows.refs, None).unwrap();
    assert_eq!(db.next_task_id, 5);
    let db = Store::from_rows(Vec::new(), Vec::new(), Vec::new(), Vec::new(), None).unwrap();
    assert!(db.initialized);
    assert_eq!(db.next_task_id, 1);
}

#[test]
fn from_rows_refuses_rows_that_do_not_fit() {
    let rows = loaded();
    assert!(Store::from_rows(rows.tasks, rows.steps, rows.labels, rows.refs, Some(4)).is_none());
    let mut rows = loaded();
    rows.tasks[0].status = Status::Done;
    assert!(Store::from_rows(rows.tasks, rows.steps, rows.labels, rows.refs, None).is_none());
    let mut rows = loaded();
    rows.tasks[2].id = u32::MAX;
    assert!(Store::from_rows(rows.tasks, rows.steps, rows.labels, rows.refs, None).is_none());
    let mut rows = loaded();
    rows.labels.push(label(3, "a"));
    assert!(Store::from_rows(rows.tasks, rows.steps, rows.labels, rows.refs, None).is_none());
}
