use myrello::db::{
    add_labels, add_step, add_task, complete_step, complete_steps, complete_task, delete_step,
    delete_steps, delete_tables, delete_task, get_done_tasks, get_labels, get_open_tasks,
    get_priority_id, get_refs, get_status_id, get_step, get_steps, has_label, increase_priority,
    init, set_descr, set_priority, set_reference, set_status, set_storypoint,
};
use myrello::store::{Store, StoreError};
use myrello::task::{Priority, Status};

fn ready() -> Store {
    let mut db = Store::new();
    init(&mut db, false).unwrap();
    db
}

fn strings(items: &[&str]) -> Vec<String> {
    items.iter().map(|s| s.to_string()).collect()
}

#[test]
fn db_test_init_1() {
    let mut db = Store::new();
    init(&mut db, false).unwrap();
}

#[test]
fn db_test_init_1b() {
    let mut db = Store::new();
    init(&mut db, true).unwrap();
}

#[test]
fn db_test_init_2() {
    let mut db = Store::new();
    init(&mut db, false).unwrap();
}

#[test]
fn db_test_init_2b() {
    let mut db = Store::new();
    init(&mut db, true).unwrap();
}

#[test]
fn db_test_init_3() {
    let mut db = Store::new();
    init(&mut db, false).unwrap();
    // force re-initialization
    init(&mut db, true).unwrap();
}

#[test]
fn db_test_init_3b() {
    let mut db = Store::new();
    init(&mut db, true).unwrap();
    // force re-initialization
    init(&mut db, true).unwrap();
}

#[test]
#[should_panic]
fn db_test_init_3c() {
    let mut db = Store::new();
    init(&mut db, true).unwrap();
    // force re-initialization
    init(&mut db, false).unwrap();
}

#[test]
fn mod_test_init_1() {
    let mut db = Store::new();
    init(&mut db, false).unwrap();
    assert!(db.initialized);
}

#[test]
fn mod_test_init_1b() {
    let mut db = Store::new();
    init(&mut db, true).unwrap();
    assert!(db.initialized);
}

#[test]
fn mod_test_init_2() {
    let mut db = Store::new();
    init(&mut db, false).unwrap();
    assert!(db.tasks.is_empty());
}

#[test]
fn mod_test_init_2b() {
    let mut db = Store::new();
    init(&mut db, true).unwrap();
    assert!(db.tasks.is_empty());
}

#[test]
fn mod_test_init_3() {
    let mut db = Store::new();
    init(&mut db, false).unwrap();
    // force re-initialization
    init(&mut db, true).unwrap();
    assert!(db.initialized);
}

#[test]
fn mod_test_init_3b() {
    let mut db = Store::new();
    init(&mut db, true).unwrap();
    // force re-initialization
    init(&mut db, true).unwrap();
    assert!(db.initialized);
}

#[test]
#[should_panic]
fn mod_test_init_3c() {
    let mut db = Store::new();
    init(&mut db, true).unwrap();
    // force re-initialization
    init(&mut db, false).unwrap();
}

#[test]
fn init_refuses_a_store_that_is_set_up() {
    let mut db = ready();
    add_task(&mut db, "keep me", 10).unwrap();
    assert_eq!(init(&mut db, false), Err(StoreError::AlreadyInitializedMismatch));
    assert_eq!(db.tasks.len(), 1);
}

#[test]
fn forced_init_drops_everything() {
    let mut db = ready();
    let id = add_task(&mut db, "to be dropped", 10).unwrap();
    add_step(&mut db, id, "a step").unwrap();
    add_labels(&mut db, id, &strings(&["l"])).unwrap();
    set_reference(&mut db, id, "ref").unwrap();
    assert_eq!(init(&mut db, true), Ok(()));
    assert!(db.initialized);
    assert!(db.tasks.is_empty());
    assert!(db.steps.is_empty());
    assert!(db.labels.is_empty());
    assert!(db.refs.is_empty());
    assert_eq!(db.next_task_id, 1);
    assert!(db.is_wf());
}

#[test]
fn delete_tables_leaves_a_store_that_is_not_set_up() {
    let mut db = ready();
    add_task(&mut db, "x", 1).unwrap();
    assert_eq!(delete_tables(&mut db), Ok(()));
    assert!(!db.initialized);
    assert!(db.tasks.is_empty());
    assert_eq!(add_task(&mut db, "x", 1), Err(StoreError::NotFound));
    assert_eq!(init(&mut db, false), Ok(()));
}

#[test]
fn test_get_priority_1() {
    let db = ready();
    assert_eq!(get_priority_id(&db, "urgent"), Ok(1));
    assert_eq!(get_priority_id(&db, "high"), Ok(2));
    assert_eq!(get_priority_id(&db, "normal"), Ok(3));
    assert_eq!(get_priority_id(&db, "low"), Ok(4));
    assert_eq!(get_priority_id(&db, "miserable"), Ok(5));
}

#[test]
fn test_get_priority_2() {
    let db = ready();
    for s in ["", "x", "Urgent", "urgent ", "done", "0", "critical", "a very long name"] {
        assert_eq!(get_priority_id(&db, s).is_err(), true);
        assert_eq!(get_priority_id(&db, s), Err(StoreError::NotFound));
    }
}

#[test]
fn test_get_status_1() {
    let db = ready();
    assert_eq!(get_status_id(&db, "todo"), Ok(1));
    assert_eq!(get_status_id(&db, "in_progress"), Ok(2));
    assert_eq!(get_status_id(&db, "done"), Ok(3));
    assert_eq!(get_status_id(&db, "block"), Ok(4));
}

#[test]
fn test_get_status_2() {
    let db = ready();
    for s in ["", "x", "Todo", "in progress", "urgent", "blocked", "0"] {
        assert_eq!(get_status_id(&db, s).is_err(), true);
        assert_eq!(get_status_id(&db, s), Err(StoreError::NotFound));
    }
}

#[test]
fn names_are_unknown_to_a_store_that_is_not_set_up() {
    let db = Store::new();
    assert_eq!(get_priority_id(&db, "urgent"), Err(StoreError::NotFound));
    assert_eq!(get_status_id(&db, "todo"), Err(StoreError::NotFound));
}

#[test]
fn add_task_gives_the_defaults() {
    let mut db = ready();
    let id = add_task(&mut db, "write spec", 1000).unwrap();
    assert_eq!(id, 1);
    let row = &db.tasks[0];
    assert_eq!(row.id, 1);
    assert_eq!(row.creation_date, 1000);
    assert_eq!(row.descr, "write spec");
    assert_eq!(row.priority, Priority::Normal);
    assert_eq!(row.status, Status::Todo);
    assert_eq!(row.storypoints, 0);
    assert_eq!(row.refs_id, None);
    assert_eq!(row.completion_date, None);
    assert!(db.is_wf());
}

#[test]
fn add_task_needs_a_store_that_is_set_up() {
    let mut db = Store::new();
    assert_eq!(add_task(&mut db, "x", 1), Err(StoreError::NotFound));
    assert!(db.tasks.is_empty());
}

#[test]
fn add_task_trims_the_end_and_bounds_the_description() {
    let mut db = ready();
    add_task(&mut db, "  keep the front \t\n ", 1).unwrap();
    assert_eq!(db.tasks[0].descr, "  keep the front");
    let long = "x".repeat(200);
    add_task(&mut db, &long, 1).unwrap();
    assert_eq!(db.tasks[1].descr, "x".repeat(128));
    let exact = "y".repeat(128);
    add_task(&mut db, &exact, 1).unwrap();
    assert_eq!(db.tasks[2].descr, exact);
    add_task(&mut db, "   ", 1).unwrap();
    assert_eq!(db.tasks[3].descr, "");
}

#[test]
fn the_bound_of_a_description_counts_bytes() {
    let mut db = ready();
    add_task(&mut db, &"\u{e9}".repeat(100), 1).unwrap();
    assert_eq!(db.tasks[0].descr, "\u{e9}".repeat(64));
    assert_eq!(db.tasks[0].descr.len(), 128);
    // no character is cut in two
    add_task(&mut db, &format!("a{}", "\u{e9}".repeat(100)), 1).unwrap();
    assert_eq!(db.tasks[1].descr, format!("a{}", "\u{e9}".repeat(63)));
    assert_eq!(db.tasks[1].descr.len(), 127);
    assert!(db.is_wf());
}

#[test]
fn identifiers_are_not_given_twice() {
    let mut db = ready();
    let a = add_task(&mut db, "a", 1).unwrap();
    let b = add_task(&mut db, "b", 1).unwrap();
    assert_eq!((a, b), (1, 2));
    delete_task(&mut db, b).unwrap();
    let c = add_task(&mut db, "c", 1).unwrap();
    assert_eq!(c, 3);
}

#[test]
fn add_task_fails_when_no_identifier_is_left() {
    let mut db = ready();
    db.next_task_id = u32::MAX;
    assert!(db.is_wf());
    assert_eq!(add_task(&mut db, "x", 1), Err(StoreError::StoreUnavailable));
    assert!(db.tasks.is_empty());
}

#[test]
fn set_priority_takes_known_names_only() {
    let mut db = ready();
    let id = add_task(&mut db, "t", 1).unwrap();
    assert_eq!(set_priority(&mut db, id, "low"), Ok(()));
    assert_eq!(db.tasks[0].priority, Priority::Low);
    assert_eq!(set_priority(&mut db, id, "lowest"), Err(StoreError::NotFound));
    assert_eq!(db.tasks[0].priority, Priority::Low);
    assert_eq!(set_priority(&mut db, id + 1, "low"), Err(StoreError::NotFound));
}

#[test]
fn set_status_moves_between_the_open_statuses() {
    let mut db = ready();
    let id = add_task(&mut db, "t", 1).unwrap();
    assert_eq!(set_status(&mut db, id, "in_progress"), Ok(()));
    assert_eq!(db.tasks[0].status, Status::InProgress);
    assert_eq!(set_status(&mut db, id, "block"), Ok(()));
    assert_eq!(db.tasks[0].status, Status::Block);
    assert_eq!(set_status(&mut db, id, "in_progress"), Ok(()));
    assert_eq!(set_status(&mut db, id, "todo"), Ok(()));
    assert_eq!(db.tasks[0].status, Status::Todo);
}

#[test]
fn set_status_refuses_the_final_status() {
    let mut db = ready();
    let id = add_task(&mut db, "t", 1).unwrap();
    assert_eq!(set_status(&mut db, id, "done"), Err(StoreError::InvalidTransition));
    assert_eq!(db.tasks[0].status, Status::Todo);
    assert_eq!(db.tasks[0].completion_date, None);
    // the name is looked at before the task
    assert_eq!(set_status(&mut db, 99, "done"), Err(StoreError::InvalidTransition));
    assert_eq!(set_status(&mut db, 99, "nothing"), Err(StoreError::NotFound));
    assert_eq!(set_status(&mut db, 99, "block"), Err(StoreError::NotFound));
}

#[test]
fn set_status_refuses_a_task_that_is_done() {
    let mut db = ready();
    let id = add_task(&mut db, "t", 1).unwrap();
    complete_task(&mut db, id, 5).unwrap();
    assert_eq!(set_status(&mut db, id, "todo"), Err(StoreError::InvalidTransition));
    assert_eq!(set_status(&mut db, id, "block"), Err(StoreError::InvalidTransition));
    assert_eq!(db.tasks[0].status, Status::Done);
    assert_eq!(db.tasks[0].completion_date, Some(5));
}

#[test]
fn set_descr_and_storypoints() {
    let mut db = ready();
    let id = add_task(&mut db, "old", 1).unwrap();
    assert_eq!(set_descr(&mut db, id, "new text  "), Ok(()));
    assert_eq!(db.tasks[0].descr, "new text");
    assert_eq!(set_storypoint(&mut db, id, 8), Ok(()));
    assert_eq!(db.tasks[0].storypoints, 8);
    assert_eq!(set_descr(&mut db, 7, "x"), Err(StoreError::NotFound));
    assert_eq!(set_storypoint(&mut db, 7, 1), Err(StoreError::NotFound));
}

#[test]
fn increase_priority_stops_at_urgent() {
    let mut db = ready();
    let id = add_task(&mut db, "t", 1).unwrap();
    assert_eq!(db.tasks[0].priority.rank(), 3);
    assert_eq!(increase_priority(&mut db, id), Ok(()));
    assert_eq!(db.tasks[0].priority, Priority::High);
    assert_eq!(increase_priority(&mut db, id), Ok(()));
    assert_eq!(db.tasks[0].priority, Priority::Urgent);
    assert_eq!(increase_priority(&mut db, id), Ok(()));
    assert_eq!(db.tasks[0].priority, Priority::Urgent);
    assert_eq!(db.tasks[0].priority.rank(), 1);
    assert_eq!(increase_priority(&mut db, 42), Err(StoreError::NotFound));
}

#[test]
fn increase_priority_from_the_bottom() {
    let mut db = ready();
    let id = add_task(&mut db, "t", 1).unwrap();
    set_priority(&mut db, id, "miserable").unwrap();
    increase_priority(&mut db, id).unwrap();
    assert_eq!(db.tasks[0].priority, Priority::Low);
    increase_priority(&mut db, id).unwrap();
    assert_eq!(db.tasks[0].priority, Priority::Normal);
}

#[test]
fn references_are_kept_and_the_last_one_counts() {
    let mut db = ready();
    let id = add_task(&mut db, "t", 1).unwrap();
    assert_eq!(get_refs(&db, id), Ok(String::new()));
    assert_eq!(set_reference(&mut db, id, "first  "), Ok(()));
    assert_eq!(get_refs(&db, id), Ok("first".to_string()));
    assert_eq!(set_reference(&mut db, id, "second"), Ok(()));
    assert_eq!(get_refs(&db, id), Ok("second".to_string()));
    assert_eq!(db.refs, strings(&["first", "second"]));
    assert_eq!(db.tasks[0].refs_id, Some(2));
    assert_eq!(get_refs(&db, 9), Err(StoreError::NotFound));
}

#[test]
fn a_reference_with_the_text_of_an_earlier_one_is_a_new_one() {
    let mut db = ready();
    let a = add_task(&mut db, "a", 1).unwrap();
    let b = add_task(&mut db, "b", 1).unwrap();
    set_reference(&mut db, a, "same").unwrap();
    set_reference(&mut db, b, "same").unwrap();
    assert_eq!(db.tasks[0].refs_id, Some(1));
    assert_eq!(db.tasks[1].refs_id, Some(2));
}

#[test]
fn a_reference_for_a_missing_task_is_recorded_all_the_same() {
    let mut db = ready();
    assert_eq!(set_reference(&mut db, 3, "orphan"), Err(StoreError::NotFound));
    assert_eq!(db.refs, strings(&["orphan"]));
    assert!(db.is_wf());
    let mut blank = Store::new();
    assert_eq!(set_reference(&mut blank, 3, "x"), Err(StoreError::NotFound));
    assert!(blank.refs.is_empty());
}

#[test]
fn references_are_bounded() {
    let mut db = ready();
    let id = add_task(&mut db, "t", 1).unwrap();
    set_reference(&mut db, id, &"r".repeat(2000)).unwrap();
    assert_eq!(get_refs(&db, id).unwrap(), "r".repeat(1024));
}

#[test]
fn labels_are_trimmed_and_attached_once() {
    let mut db = ready();
    let id = add_task(&mut db, "t", 1).unwrap();
    assert_eq!(add_labels(&mut db, id, &strings(&["docs", " urgent-label ", "docs"])), Ok(()));
    assert_eq!(get_labels(&db, id), Ok(strings(&["docs", "urgent-label"])));
    assert_eq!(add_labels(&mut db, id, &strings(&["docs\t", "more"])), Ok(()));
    assert_eq!(get_labels(&db, id), Ok(strings(&["docs", "urgent-label", "more"])));
    assert!(has_label(&db, id, "more"));
    assert!(!has_label(&db, id, "More"));
    assert!(!has_label(&db, id + 1, "more"));
    assert!(db.is_wf());
}

#[test]
fn labels_belong_to_their_task() {
    let mut db = ready();
    let a = add_task(&mut db, "a", 1).unwrap();
    let b = add_task(&mut db, "b", 1).unwrap();
    add_labels(&mut db, a, &strings(&["x", "y"])).unwrap();
    add_labels(&mut db, b, &strings(&["y", "z"])).unwrap();
    assert_eq!(get_labels(&db, a), Ok(strings(&["x", "y"])));
    assert_eq!(get_labels(&db, b), Ok(strings(&["y", "z"])));
    assert_eq!(get_labels(&db, 77), Ok(Vec::new()));
}

#[test]
fn labels_are_bounded() {
    let mut db = ready();
    let id = add_task(&mut db, "t", 1).unwrap();
    add_labels(&mut db, id, &[format!("  {}  ", "l".repeat(300))]).unwrap();
    assert_eq!(get_labels(&db, id).unwrap(), vec!["l".repeat(256)]);
}

#[test]
fn labels_need_a_store_that_is_set_up() {
    let mut db = Store::new();
    assert_eq!(add_labels(&mut db, 1, &strings(&["x"])), Err(StoreError::NotFound));
    assert_eq!(get_labels(&db, 1), Err(StoreError::NotFound));
}

#[test]
fn steps_are_numbered_from_zero() {
    let mut db = ready();
    let id = add_task(&mut db, "t", 1).unwrap();
    assert_eq!(add_step(&mut db, id, "start"), Ok(0));
    assert_eq!(add_step(&mut db, id, "go on"), Ok(1));
    assert_eq!(add_step(&mut db, id, "finish"), Ok(2));
    let other = add_task(&mut db, "u", 1).unwrap();
    assert_eq!(add_step(&mut db, other, "start"), Ok(0));
    assert_eq!(add_step(&mut db, id, "more"), Ok(3));
}

#[test]
fn the_second_step_is_number_one_whether_or_not_the_first_is_done() {
    let mut open = ready();
    let id = add_task(&mut open, "t", 1).unwrap();
    assert_eq!(add_step(&mut open, id, "start"), Ok(0));
    assert_eq!(add_step(&mut open, id, "next"), Ok(1));

    let mut done = ready();
    let id = add_task(&mut done, "t", 1).unwrap();
    assert_eq!(add_step(&mut done, id, "start"), Ok(0));
    complete_step(&mut done, id, 0, 9).unwrap();
    assert_eq!(add_step(&mut done, id, "next"), Ok(1));
}

#[test]
fn the_next_step_number_follows_the_highest() {
    let mut db = ready();
    let id = add_task(&mut db, "t", 1).unwrap();
    add_step(&mut db, id, "0").unwrap();
    add_step(&mut db, id, "1").unwrap();
    add_step(&mut db, id, "2").unwrap();
    delete_step(&mut db, id, 1).unwrap();
    assert_eq!(add_step(&mut db, id, "3"), Ok(3));
    delete_step(&mut db, id, 3).unwrap();
    assert_eq!(add_step(&mut db, id, "3 again"), Ok(3));
    delete_steps(&mut db, id).unwrap();
    assert_eq!(add_step(&mut db, id, "fresh"), Ok(0));
}

#[test]
fn add_step_fails_when_no_number_is_left() {
    let mut db = ready();
    let id = add_task(&mut db, "t", 1).unwrap();
    add_step(&mut db, id, "0").unwrap();
    db.steps[0].step_id = u32::MAX;
    assert!(db.is_wf());
    assert_eq!(add_step(&mut db, id, "x"), Err(StoreError::StoreUnavailable));
    assert_eq!(db.steps.len(), 1);
    let mut blank = Store::new();
    assert_eq!(add_step(&mut blank, 1, "x"), Err(StoreError::NotFound));
}

#[test]
fn get_step_finds_open_and_completed_steps() {
    let mut db = ready();
    let id = add_task(&mut db, "t", 1).unwrap();
    add_step(&mut db, id, "start").unwrap();
    add_step(&mut db, id, "next").unwrap();
    complete_step(&mut db, id, 0, 77).unwrap();
    let first = get_step(&db, id, 0).unwrap();
    assert_eq!((first.todo_id, first.step_id), (id, 0));
    assert_eq!(first.descr, "start");
    assert_eq!(first.completion_date, Some(77));
    let second = get_step(&db, id, 1).unwrap();
    assert_eq!(second.descr, "next");
    assert_eq!(second.completion_date, None);
    assert_eq!(get_step(&db, id, 2).err(), Some(StoreError::NotFound));
    assert_eq!(get_step(&db, id + 1, 0).err(), Some(StoreError::NotFound));
}

#[test]
fn get_steps_gives_the_open_steps_in_order() {
    let mut db = ready();
    let a = add_task(&mut db, "a", 1).unwrap();
    let b = add_task(&mut db, "b", 1).unwrap();
    add_step(&mut db, a, "a0").unwrap();
    add_step(&mut db, b, "b0").unwrap();
    add_step(&mut db, a, "a1").unwrap();
    add_step(&mut db, a, "a2").unwrap();
    complete_step(&mut db, a, 1, 5).unwrap();
    let open: Vec<(u32, String)> =
        get_steps(&db, a).unwrap().into_iter().map(|s| (s.step_id, s.descr)).collect();
    assert_eq!(open, vec![(0, "a0".to_string()), (2, "a2".to_string())]);
    assert_eq!(get_steps(&db, 50).unwrap().len(), 0);
    assert_eq!(get_steps(&Store::new(), a).err(), Some(StoreError::NotFound));
}

#[test]
fn complete_step_needs_the_step() {
    let mut db = ready();
    let id = add_task(&mut db, "t", 1).unwrap();
    add_step(&mut db, id, "start").unwrap();
    assert_eq!(complete_step(&mut db, id, 1, 3), Err(StoreError::NotFound));
    assert_eq!(complete_step(&mut db, id + 1, 0, 3), Err(StoreError::NotFound));
    assert_eq!(db.steps[0].completion_date, None);
    assert_eq!(complete_step(&mut db, id, 0, 3), Ok(()));
    assert_eq!(db.steps[0].completion_date, Some(3));
}

#[test]
fn complete_steps_completes_the_open_steps_of_one_task() {
    let mut db = ready();
    let a = add_task(&mut db, "a", 1).unwrap();
    let b = add_task(&mut db, "b", 1).unwrap();
    add_step(&mut db, a, "a0").unwrap();
    add_step(&mut db, a, "a1").unwrap();
    add_step(&mut db, b, "b0").unwrap();
    complete_step(&mut db, a, 0, 5).unwrap();
    assert_eq!(complete_steps(&mut db, a, 9), Ok(()));
    assert_eq!(db.steps[0].completion_date, Some(5));
    assert_eq!(db.steps[1].completion_date, Some(9));
    assert_eq!(db.steps[2].completion_date, None);
    assert!(get_steps(&db, a).unwrap().is_empty());
    // a task without open steps is no error
    assert_eq!(complete_steps(&mut db, a, 10), Ok(()));
    assert_eq!(complete_steps(&mut db, 88, 10), Ok(()));
    assert_eq!(complete_steps(&mut Store::new(), a, 10), Err(StoreError::NotFound));
}

#[test]
fn delete_step_and_delete_steps() {
    let mut db = ready();
    let a = add_task(&mut db, "a", 1).unwrap();
    let b = add_task(&mut db, "b", 1).unwrap();
    add_step(&mut db, a, "a0").unwrap();
    add_step(&mut db, b, "b0").unwrap();
    add_step(&mut db, a, "a1").unwrap();
    assert_eq!(delete_step(&mut db, a, 5), Err(StoreError::NotFound));
    assert_eq!(db.steps.len(), 3);
    assert_eq!(delete_step(&mut db, a, 0), Ok(()));
    let left: Vec<(u32, u32)> = db.steps.iter().map(|s| (s.todo_id, s.step_id)).collect();
    assert_eq!(left, vec![(b, 0), (a, 1)]);
    assert_eq!(delete_steps(&mut db, a), Ok(()));
    let left: Vec<(u32, u32)> = db.steps.iter().map(|s| (s.todo_id, s.step_id)).collect();
    assert_eq!(left, vec![(b, 0)]);
    assert_eq!(delete_steps(&mut db, a), Ok(()));
    assert_eq!(delete_steps(&mut Store::new(), a), Err(StoreError::NotFound));
    assert!(db.is_wf());
}

#[test]
fn complete_task_sets_date_status_and_steps_together() {
    let mut db = ready();
    let id = add_task(&mut db, "t", 1).unwrap();
    add_step(&mut db, id, "start").unwrap();
    add_step(&mut db, id, "next").unwrap();
    assert_eq!(complete_task(&mut db, id, 500), Ok(()));
    assert_eq!(db.tasks[0].status, Status::Done);
    assert_eq!(db.tasks[0].completion_date, Some(500));
    assert_eq!(db.steps[0].completion_date, Some(500));
    assert_eq!(db.steps[1].completion_date, Some(500));
    assert!(get_steps(&db, id).unwrap().is_empty());
    assert!(db.is_wf());
}

#[test]
fn complete_task_errors() {
    let mut db = ready();
    let id = add_task(&mut db, "t", 1).unwrap();
    assert_eq!(complete_task(&mut db, id + 1, 5), Err(StoreError::NotFound));
    complete_task(&mut db, id, 5).unwrap();
    assert_eq!(complete_task(&mut db, id, 6), Err(StoreError::InvalidTransition));
    assert_eq!(db.tasks[0].completion_date, Some(5));
}

#[test]
fn a_task_has_a_completion_date_exactly_when_it_is_done() {
    let mut db = ready();
    let a = add_task(&mut db, "a", 1).unwrap();
    let b = add_task(&mut db, "b", 2).unwrap();
    let c = add_task(&mut db, "c", 3).unwrap();
    set_status(&mut db, a, "in_progress").unwrap();
    set_status(&mut db, b, "block").unwrap();
    complete_task(&mut db, b, 10).unwrap();
    let _ = set_status(&mut db, b, "todo");
    let _ = set_status(&mut db, c, "done");
    increase_priority(&mut db, c).unwrap();
    for row in &db.tasks {
        assert_eq!(row.completion_date.is_some(), row.status == Status::Done);
    }
    assert!(db.is_wf());
}

#[test]
fn open_tasks_come_by_priority_then_by_age() {
    let mut db = ready();
    let a = add_task(&mut db, "a", 1).unwrap();
    let b = add_task(&mut db, "b", 2).unwrap();
    let c = add_task(&mut db, "c", 3).unwrap();
    let d = add_task(&mut db, "d", 4).unwrap();
    let e = add_task(&mut db, "e", 5).unwrap();
    set_priority(&mut db, c, "urgent").unwrap();
    set_priority(&mut db, d, "miserable").unwrap();
    set_priority(&mut db, e, "urgent").unwrap();
    set_storypoint(&mut db, b, 3).unwrap();
    complete_task(&mut db, a, 9).unwrap();
    let open = get_open_tasks(&db).unwrap();
    let ids: Vec<u32> = open.iter().map(|t| t.id).collect();
    assert_eq!(ids, vec![c, e, b, d]);
    assert_eq!(open[2].descr, "b");
    assert_eq!(open[2].priority, Priority::Normal);
    assert_eq!(open[2].status, Status::Todo);
    assert_eq!(open[2].storypoints, 3);
    assert_eq!(get_open_tasks(&Store::new()).err(), Some(StoreError::NotFound));
}

#[test]
fn done_tasks_come_by_completion_date() {
    let mut db = ready();
    let a = add_task(&mut db, "a", 1).unwrap();
    let b = add_task(&mut db, "b", 2).unwrap();
    let c = add_task(&mut db, "c", 3).unwrap();
    let d = add_task(&mut db, "d", 4).unwrap();
    let _open = add_task(&mut db, "open", 5).unwrap();
    set_storypoint(&mut db, c, 5).unwrap();
    complete_task(&mut db, d, 100).unwrap();
    complete_task(&mut db, a, 300).unwrap();
    complete_task(&mut db, c, 100).unwrap();
    complete_task(&mut db, b, 50).unwrap();
    let done = get_done_tasks(&db).unwrap();
    let order: Vec<(u32, i64)> = done.iter().map(|t| (t.id, t.completion_date)).collect();
    assert_eq!(order, vec![(b, 50), (c, 100), (d, 100), (a, 300)]);
    assert_eq!(done[1].descr, "c");
    assert_eq!(done[1].storypoints, 5);
    assert_eq!(get_done_tasks(&Store::new()).err(), Some(StoreError::NotFound));
}

#[test]
fn delete_task_removes_the_row_and_the_labels() {
    let mut db = ready();
    let a = add_task(&mut db, "a", 1).unwrap();
    let b = add_task(&mut db, "b", 2).unwrap();
    add_labels(&mut db, a, &strings(&["x"])).unwrap();
    add_labels(&mut db, b, &strings(&["x", "y"])).unwrap();
    add_step(&mut db, a, "start").unwrap();
    assert_eq!(delete_task(&mut db, a), Ok(()));
    assert_eq!(db.tasks.len(), 1);
    assert_eq!(db.tasks[0].id, b);
    assert_eq!(get_labels(&db, a), Ok(Vec::new()));
    assert_eq!(get_labels(&db, b), Ok(strings(&["x", "y"])));
    // the steps are left to the caller
    assert_eq!(db.steps.len(), 1);
    assert_eq!(delete_task(&mut db, a), Err(StoreError::NotFound));
    assert!(db.is_wf());
}

#[test]
fn delete_task_removes_the_labels_of_a_missing_task_too() {
    let mut db = ready();
    add_labels(&mut db, 9, &strings(&["stray"])).unwrap();
    assert_eq!(delete_task(&mut db, 9), Err(StoreError::NotFound));
    assert!(db.labels.is_empty());
}
