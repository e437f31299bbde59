use todo_app::{Timestamp, Todo};

fn instant(micros: i64) -> Timestamp {
    Timestamp::from_micros(micros).unwrap()
}

fn sample() -> Todo {
    Todo::new(7, String::from("A"), String::from("write"), 3, instant(1_000))
}

#[test]
fn a_new_todo_is_pending_with_no_time() {
    let todo = sample();
    assert_eq!(todo.todo_id, 7);
    assert_eq!(todo.task_priority, 3);
    assert!(!todo.completed);
    assert!(!todo.is_active);
    assert_eq!(todo.completed_at, None);
    assert_eq!(todo.total_time, 0);
    assert_eq!(todo.created_at, instant(1_000));
    assert!(todo.is_valid());
}

#[test]
fn completion_sets_flag_and_time_together() {
    let mut todo = sample();
    todo.complete(instant(2_000));
    assert!(todo.completed);
    assert_eq!(todo.completed_at, Some(instant(2_000)));
    assert!(todo.is_valid());
}

#[test]
fn completion_ends_activity() {
    let mut todo = sample();
    todo.activate();
    todo.complete(instant(2_000));
    assert!(todo.completed);
    assert!(!todo.is_active);
    assert!(todo.is_valid());
}

#[test]
fn revert_clears_flag_and_time_together() {
    let mut todo = sample();
    todo.deactivate(30);
    todo.complete(instant(2_000));
    todo.revert();
    assert!(!todo.completed);
    assert_eq!(todo.completed_at, None);
    assert_eq!(todo.total_time, 30);
    assert!(todo.is_valid());
}

#[test]
fn activating_twice_is_activating_once() {
    let mut once = sample();
    once.activate();
    let mut twice = sample();
    twice.activate();
    twice.activate();
    assert_eq!(once, twice);
    assert!(twice.is_active);
}

#[test]
fn activating_a_completed_todo_takes_it_out_of_completion() {
    let mut todo = sample();
    todo.complete(instant(2_000));
    todo.activate();
    assert!(todo.is_active);
    assert!(!todo.completed);
    assert_eq!(todo.completed_at, None);
    assert!(todo.is_valid());
}

#[test]
fn deactivation_adds_the_duration() {
    let mut todo = sample();
    todo.activate();
    todo.deactivate(30);
    assert!(!todo.is_active);
    assert_eq!(todo.total_time, 30);
    todo.deactivate(0);
    assert_eq!(todo.total_time, 30);
    todo.deactivate(i32::MAX - 30);
    assert_eq!(todo.total_time, i32::MAX);
}

#[test]
fn removal_takes_the_duration_off() {
    let mut todo = sample();
    todo.deactivate(45);
    todo.remove_time(15);
    assert_eq!(todo.total_time, 30);
    todo.remove_time(30);
    assert_eq!(todo.total_time, 0);
}

#[test]
fn edit_keeps_identity_state_and_times() {
    let mut todo = sample();
    todo.deactivate(5);
    todo.complete(instant(9_000));
    todo.edit(String::from("B"), String::from("read"), 10);
    assert_eq!(todo.project, "B");
    assert_eq!(todo.task, "read");
    assert_eq!(todo.task_priority, 10);
    assert_eq!(todo.todo_id, 7);
    assert_eq!(todo.created_at, instant(1_000));
    assert_eq!(todo.completed_at, Some(instant(9_000)));
    assert_eq!(todo.total_time, 5);
}

#[test]
fn validity_is_tested() {
    let mut todo = sample();
    todo.completed = true;
    assert!(!todo.is_valid());
    todo.completed_at = Some(instant(1));
    assert!(todo.is_valid());
    todo.is_active = true;
    assert!(!todo.is_valid());
    todo.is_active = false;
    todo.total_time = -1;
    assert!(!todo.is_valid());
    todo.total_time = 0;
    todo.completed = false;
    assert!(!todo.is_valid());
}

#[test]
fn projections_copy_the_fields() {
    let mut todo = sample();
    todo.deactivate(12);
    let pending = todo.to_pending();
    assert_eq!(pending.todo_id, 7);
    assert_eq!(pending.project, "A");
    assert_eq!(pending.task, "write");
    assert_eq!(pending.task_priority, 3);
    assert_eq!(pending.created_at, instant(1_000));
    assert_eq!(pending.total_time, 12);
    todo.complete(instant(5_000));
    let completed = todo.to_completed();
    assert_eq!(completed.todo_id, 7);
    assert_eq!(completed.completed_at, Some(instant(5_000)));
    assert_eq!(completed.total_time, 12);
    assert_eq!(todo.duplicate(), todo);
}
