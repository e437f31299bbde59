use todo_app::{AppError, Failure, Field, Timestamp, Todo, TodoStore};

fn moment(micros: i64) -> Timestamp {
    Timestamp::from_micros(micros).unwrap()
}

fn filled() -> TodoStore {
    let mut store = TodoStore::new();
    store.create(String::from("P"), String::from("low"), 1, moment(10)).unwrap();
    store.create(String::from("P"), String::from("high"), 9, moment(20)).unwrap();
    store.create(String::from("Q"), String::from("low again"), 1, moment(30)).unwrap();
    store.create(String::from("Q"), String::from("middle"), 5, moment(40)).unwrap();
    store
}

fn pending_ids(store: &TodoStore) -> Vec<i32> {
    store.list_pending().iter().map(|todo| todo.todo_id).collect()
}

fn completed_ids(store: &TodoStore) -> Vec<i32> {
    store.list_completed().iter().map(|todo| todo.todo_id).collect()
}

#[test]
fn identifiers_start_at_one_and_rise() {
    let store = filled();
    let ids: Vec<i32> = store.all().iter().map(|todo| todo.todo_id).collect();
    assert_eq!(ids, vec![1, 2, 3, 4]);
    assert_eq!(store.upcoming_id(), 5);
    assert_eq!(store.len(), 4);
}

#[test]
fn create_hands_back_the_new_todo() {
    let mut store = TodoStore::new();
    let todo = store.create(String::from("A"), String::from("write spec"), 5, moment(77)).unwrap();
    assert_eq!(todo, Todo::new(1, String::from("A"), String::from("write spec"), 5, moment(77)));
    assert_eq!(store.get(1), Ok(todo));
}

#[test]
fn get_of_a_missing_todo_is_not_found() {
    let store = filled();
    assert_eq!(store.get(5), Err(AppError(Failure::NotFound)));
    assert_eq!(store.get(0), Err(AppError(Failure::NotFound)));
    assert_eq!(store.get(-1), Err(AppError(Failure::NotFound)));
    assert_eq!(store.position(3), Some(2));
    assert_eq!(store.position(9), None);
}

#[test]
fn pending_list_is_by_priority_then_creation() {
    let store = filled();
    assert_eq!(pending_ids(&store), vec![2, 4, 1, 3]);
}

#[test]
fn completed_list_is_latest_first() {
    let mut store = filled();
    store.complete(1, moment(500)).unwrap();
    store.complete(3, moment(900)).unwrap();
    store.complete(2, moment(700)).unwrap();
    assert_eq!(completed_ids(&store), vec![3, 2, 1]);
    assert_eq!(pending_ids(&store), vec![4]);
}

#[test]
fn completions_at_one_instant_stay_in_creation_order() {
    let mut store = filled();
    store.complete(4, moment(500)).unwrap();
    store.complete(2, moment(500)).unwrap();
    store.complete(1, moment(600)).unwrap();
    assert_eq!(completed_ids(&store), vec![1, 2, 4]);
}

#[test]
fn completed_list_takes_times_before_the_epoch() {
    let mut store = filled();
    store.complete(1, moment(-5)).unwrap();
    store.complete(2, moment(5)).unwrap();
    store.complete(3, moment(0)).unwrap();
    assert_eq!(completed_ids(&store), vec![2, 3, 1]);
}

#[test]
fn pending_list_takes_the_ends_of_the_priority_range() {
    let mut store = TodoStore::new();
    store.create(String::from("P"), String::from("least"), i32::MIN, moment(1)).unwrap();
    store.create(String::from("P"), String::from("most"), i32::MAX, moment(2)).unwrap();
    store.create(String::from("P"), String::from("none"), 0, moment(3)).unwrap();
    store.create(String::from("P"), String::from("below"), -1, moment(4)).unwrap();
    assert_eq!(pending_ids(&store), vec![2, 3, 4, 1]);
}

#[test]
fn update_overwrites_in_place() {
    let mut store = filled();
    let before = store.get(3).unwrap();
    let after = store.update(3, String::from("R"), String::from("now first"), 10).unwrap();
    assert_eq!(after.todo_id, 3);
    assert_eq!(after.project, "R");
    assert_eq!(after.task, "now first");
    assert_eq!(after.task_priority, 10);
    assert_eq!(after.created_at, before.created_at);
    assert_eq!(store.get(3), Ok(after));
    assert_eq!(pending_ids(&store), vec![3, 2, 4, 1]);
    assert_eq!(store.position(3), Some(2));
}

#[test]
fn update_of_a_missing_todo_changes_nothing() {
    let mut store = filled();
    let before = store.all();
    assert_eq!(
        store.update(8, String::from("R"), String::from("x"), 1),
        Err(AppError(Failure::NotFound))
    );
    assert_eq!(store.all(), before);
}

#[test]
fn delete_removes_for_good_and_gives_no_identifier_twice() {
    let mut store = filled();
    let removed = store.delete(4).unwrap();
    assert_eq!(removed.todo_id, 4);
    assert_eq!(store.get(4), Err(AppError(Failure::NotFound)));
    assert_eq!(store.delete(4), Err(AppError(Failure::NotFound)));
    assert_eq!(store.len(), 3);
    let next = store.create(String::from("P"), String::from("new"), 0, moment(50)).unwrap();
    assert_eq!(next.todo_id, 5);
}

#[test]
fn lifecycle_steps_of_a_missing_todo_are_not_found() {
    let mut store = filled();
    assert_eq!(store.complete(9, moment(1)), Err(AppError(Failure::NotFound)));
    assert_eq!(store.revert(9), Err(AppError(Failure::NotFound)));
    assert_eq!(store.activate(9), Err(AppError(Failure::NotFound)));
    assert_eq!(store.deactivate(9, 1), Err(AppError(Failure::NotFound)));
}

#[test]
fn time_beyond_the_counter_is_refused() {
    let mut store = filled();
    store.deactivate(1, i32::MAX).unwrap();
    let before = store.all();
    assert_eq!(store.deactivate(1, 1), Err(AppError(Failure::StoreUnavailable)));
    assert_eq!(store.all(), before);
    assert_eq!(store.deactivate(1, 0).unwrap().total_time, i32::MAX);
}

#[test]
fn a_negative_duration_is_refused() {
    let mut store = filled();
    let before = store.all();
    assert_eq!(store.deactivate(1, -1), Err(AppError(Failure::Validation(Field::Duration))));
    assert_eq!(store.deactivate(9, -1), Err(AppError(Failure::Validation(Field::Duration))));
    assert_eq!(store.all(), before);
}

#[test]
fn a_full_store_takes_no_more_todos() {
    let last = Todo::new(i32::MAX, String::from("P"), String::from("last"), 0, moment(1));
    let mut store = TodoStore::restore(vec![last], i32::MAX as i64 + 1).unwrap();
    let before = store.all();
    assert_eq!(
        store.create(String::from("P"), String::from("one more"), 0, moment(2)),
        Err(AppError(Failure::StoreUnavailable))
    );
    assert_eq!(store.all(), before);
}

#[test]
fn the_last_identifier_can_be_given() {
    let mut store = TodoStore::restore(vec![], i32::MAX as i64).unwrap();
    let todo = store.create(String::from("P"), String::from("last"), 0, moment(2)).unwrap();
    assert_eq!(todo.todo_id, i32::MAX);
    assert_eq!(store.upcoming_id(), i32::MAX as i64 + 1);
}

#[test]
fn restore_refuses_what_is_no_store() {
    let first = Todo::new(1, String::from("P"), String::from("a"), 0, moment(1));
    let second = Todo::new(2, String::from("P"), String::from("b"), 0, moment(1));
    assert!(TodoStore::restore(vec![first.clone(), second.clone()], 3).is_some());
    assert!(TodoStore::restore(vec![first.clone(), second.clone()], 2).is_none());
    assert!(TodoStore::restore(vec![second.clone(), first.clone()], 3).is_none());
    assert!(TodoStore::restore(vec![first.clone(), first.clone()], 3).is_none());
    assert!(TodoStore::restore(vec![], 0).is_none());
    assert!(TodoStore::restore(vec![], i32::MAX as i64 + 2).is_none());
    let mut zero = first.clone();
    zero.todo_id = 0;
    assert!(TodoStore::restore(vec![zero], 3).is_none());
    let mut broken = first.clone();
    broken.completed = true;
    assert!(TodoStore::restore(vec![broken], 3).is_none());
}
