use todo_app::{AppError, Failure, Field, Progress, Timestamp, Todo, Tracker};

fn tick(micros: i64) -> Timestamp {
    Timestamp::from_micros(micros).unwrap()
}

fn consistent(tracker: &Tracker) -> bool {
    Tracker::restore(
        tracker.store().all(),
        tracker.log().all(),
        tracker.store().upcoming_id(),
        tracker.log().upcoming_id(),
    )
    .is_some()
}

fn time_matches_notes(tracker: &Tracker) -> bool {
    tracker
        .store()
        .all()
        .iter()
        .all(|todo| tracker.log().time_for(todo.todo_id) == Some(todo.total_time))
}

fn busy() -> Tracker {
    let mut tracker = Tracker::new();
    tracker.create(String::from("A"), String::from("one"), 1, tick(10)).unwrap();
    tracker.create(String::from("A"), String::from("two"), 2, tick(20)).unwrap();
    tracker.create(String::from("B"), String::from("three"), 3, tick(30)).unwrap();
    tracker.activate(1).unwrap();
    tracker.deactivate(1, String::from("began"), 10, tick(40)).unwrap();
    tracker.activate(2).unwrap();
    tracker.deactivate(2, String::from("half"), 20, tick(50)).unwrap();
    tracker.activate(1).unwrap();
    tracker.deactivate(1, String::from("more"), 5, tick(60)).unwrap();
    tracker
}

#[test]
fn a_new_tracker_is_empty_and_consistent() {
    let tracker = Tracker::new();
    assert_eq!(tracker.store().len(), 0);
    assert_eq!(tracker.log().len(), 0);
    assert!(tracker.list_pending().is_empty());
    assert!(tracker.list_completed().is_empty());
    assert!(consistent(&tracker));
}

#[test]
fn time_is_the_sum_of_the_notes_after_mixed_commands() {
    let mut tracker = busy();
    assert!(time_matches_notes(&tracker));
    assert_eq!(tracker.total_time(1).unwrap().total_time, 15);
    assert_eq!(tracker.total_time(2).unwrap().total_time, 20);
    assert_eq!(tracker.total_time(3).unwrap().total_time, 0);
    tracker.delete_progress(1).unwrap();
    assert!(time_matches_notes(&tracker));
    tracker.deactivate(3, String::from("late"), 7, tick(70)).unwrap();
    tracker.delete_progress(2).unwrap();
    tracker.complete(1, tick(80)).unwrap();
    tracker.deactivate(1, String::from("after completion"), 1, tick(90)).unwrap();
    tracker.revert(1).unwrap();
    tracker.delete(2).unwrap();
    assert!(time_matches_notes(&tracker));
    assert!(consistent(&tracker));
    assert_eq!(tracker.total_time(1).unwrap().total_time, 6);
    assert_eq!(tracker.total_time(3).unwrap().total_time, 7);
}

#[test]
fn completed_means_a_time_of_completion_after_every_step() {
    let mut tracker = busy();
    let check = |tracker: &Tracker| {
        tracker.store().all().iter().all(|todo| {
            todo.completed == todo.completed_at.is_some() && !(todo.completed && todo.is_active)
        })
    };
    assert!(check(&tracker));
    tracker.complete(1, tick(100)).unwrap();
    assert!(check(&tracker));
    tracker.activate(1).unwrap();
    assert!(check(&tracker));
    tracker.complete(1, tick(110)).unwrap();
    tracker.complete(1, tick(120)).unwrap();
    assert!(check(&tracker));
    assert_eq!(tracker.get(1).unwrap().completed_at, Some(tick(120)));
    tracker.revert(1).unwrap();
    tracker.revert(1).unwrap();
    assert!(check(&tracker));
    tracker.activate(2).unwrap();
    tracker.complete(2, tick(130)).unwrap();
    assert!(check(&tracker));
}

#[test]
fn deactivate_makes_one_note_and_adds_its_duration() {
    let mut tracker = busy();
    let notes_before = tracker.log().len();
    let time_before = tracker.total_time(3).unwrap().total_time;
    tracker.activate(3).unwrap();
    let (todo, made) = tracker.deactivate(3, String::from("done"), 25, tick(200)).unwrap();
    assert_eq!(tracker.log().len(), notes_before + 1);
    assert_eq!(
        made,
        Progress {
            progress_id: 4,
            todo_id: 3,
            note: String::from("done"),
            made_at: tick(200),
            time_spent: 25,
        }
    );
    assert_eq!(tracker.log().all().last(), Some(&made));
    assert!(!todo.is_active);
    assert_eq!(todo.total_time, time_before + 25);
    assert_eq!(tracker.get(3).unwrap(), todo);
    assert_eq!(tracker.total_time(1).unwrap().total_time, 15);
    assert_eq!(tracker.total_time(2).unwrap().total_time, 20);
}

#[test]
fn deactivate_with_no_time_still_makes_a_note() {
    let mut tracker = busy();
    let (todo, made) = tracker.deactivate(3, String::from("looked at it"), 0, tick(200)).unwrap();
    assert_eq!(made.time_spent, 0);
    assert_eq!(todo.total_time, 0);
    assert_eq!(tracker.progress_for(3).len(), 1);
}

#[test]
fn deactivate_refuses_a_negative_duration() {
    let mut tracker = busy();
    let todos = tracker.store().all();
    let notes = tracker.log().all();
    assert_eq!(
        tracker.deactivate(1, String::from("x"), -1, tick(1)),
        Err(AppError(Failure::Validation(Field::Duration)))
    );
    assert_eq!(
        tracker.deactivate(99, String::from("x"), -1, tick(1)),
        Err(AppError(Failure::Validation(Field::Duration)))
    );
    assert_eq!(tracker.store().all(), todos);
    assert_eq!(tracker.log().all(), notes);
}

#[test]
fn deactivate_of_a_missing_todo_makes_no_note() {
    let mut tracker = busy();
    let notes = tracker.log().all();
    assert_eq!(
        tracker.deactivate(99, String::from("x"), 5, tick(1)),
        Err(AppError(Failure::NotFound))
    );
    assert_eq!(tracker.log().all(), notes);
    assert_eq!(tracker.log().upcoming_id(), 4);
}

#[test]
fn deactivate_beyond_the_counter_changes_nothing() {
    let mut tracker = busy();
    tracker.activate(3).unwrap();
    tracker.deactivate(3, String::from("all"), i32::MAX, tick(1)).unwrap();
    tracker.activate(3).unwrap();
    let todos = tracker.store().all();
    let notes = tracker.log().all();
    assert_eq!(
        tracker.deactivate(3, String::from("one more"), 1, tick(2)),
        Err(AppError(Failure::StoreUnavailable))
    );
    assert_eq!(tracker.store().all(), todos);
    assert_eq!(tracker.log().all(), notes);
    assert!(tracker.get(3).unwrap().is_active);
}

#[test]
fn deactivate_into_a_full_log_changes_nothing() {
    let todo = Todo::new(1, String::from("A"), String::from("one"), 1, tick(10));
    let mut tracker = Tracker::restore(vec![todo], vec![], 2, i32::MAX as i64 + 1).unwrap();
    tracker.activate(1).unwrap();
    let todos = tracker.store().all();
    assert_eq!(
        tracker.deactivate(1, String::from("x"), 5, tick(2)),
        Err(AppError(Failure::StoreUnavailable))
    );
    assert_eq!(tracker.store().all(), todos);
    assert_eq!(tracker.log().len(), 0);
}

#[test]
fn deleting_a_note_takes_the_stored_duration_off() {
    let mut tracker = busy();
    let (removed, todo) = tracker.delete_progress(3).unwrap();
    assert_eq!(removed.time_spent, 5);
    assert_eq!(removed.todo_id, 1);
    assert_eq!(todo.todo_id, 1);
    assert_eq!(todo.total_time, 10);
    assert_eq!(tracker.get(1).unwrap().total_time, 10);
    assert_eq!(tracker.total_time(2).unwrap().total_time, 20);
    assert_eq!(tracker.log().len(), 2);
    assert_eq!(tracker.delete_progress(3), Err(AppError(Failure::NotFound)));
    assert_eq!(tracker.get(1).unwrap().total_time, 10);
}

#[test]
fn deleting_a_todo_takes_its_notes_along() {
    let mut tracker = busy();
    let removed = tracker.delete(1).unwrap();
    assert_eq!(removed.todo_id, 1);
    assert_eq!(removed.total_time, 15);
    let owners: Vec<i32> = tracker.log().all().iter().map(|note| note.todo_id).collect();
    assert_eq!(owners, vec![2]);
    assert!(tracker.progress_for(1).is_empty());
    assert_eq!(tracker.get(1), Err(AppError(Failure::NotFound)));
    assert_eq!(tracker.delete(1), Err(AppError(Failure::NotFound)));
    assert_eq!(tracker.delete_progress(1), Err(AppError(Failure::NotFound)));
    assert!(consistent(&tracker));
}

#[test]
fn revert_keeps_the_time_and_returns_to_the_pending_list() {
    let mut tracker = busy();
    tracker.complete(2, tick(300)).unwrap();
    assert!(tracker.list_pending().iter().all(|todo| todo.todo_id != 2));
    assert_eq!(tracker.list_completed().len(), 1);
    let todo = tracker.revert(2).unwrap();
    assert!(!todo.completed);
    assert_eq!(todo.completed_at, None);
    assert_eq!(todo.total_time, 20);
    assert!(tracker.list_pending().iter().any(|shown| shown.todo_id == 2));
    assert!(tracker.list_completed().is_empty());
    assert_eq!(tracker.log().len(), 3);
}

#[test]
fn commands_on_a_missing_todo_are_not_found() {
    let mut tracker = busy();
    let todos = tracker.store().all();
    assert_eq!(tracker.get(9), Err(AppError(Failure::NotFound)));
    assert_eq!(tracker.total_time(9), Err(AppError(Failure::NotFound)));
    assert_eq!(tracker.complete(9, tick(1)), Err(AppError(Failure::NotFound)));
    assert_eq!(tracker.revert(9), Err(AppError(Failure::NotFound)));
    assert_eq!(tracker.activate(9), Err(AppError(Failure::NotFound)));
    assert_eq!(
        tracker.edit(9, String::from("x"), String::from("y"), 1),
        Err(AppError(Failure::NotFound))
    );
    assert_eq!(tracker.delete(9), Err(AppError(Failure::NotFound)));
    assert_eq!(tracker.store().all(), todos);
}

#[test]
fn progress_list_is_chronological() {
    let tracker = busy();
    let ids: Vec<i32> = tracker.progress_for(1).iter().map(|note| note.progress_id).collect();
    assert_eq!(ids, vec![1, 3]);
}

#[test]
fn restore_takes_what_a_tracker_holds() {
    let tracker = busy();
    let again = Tracker::restore(
        tracker.store().all(),
        tracker.log().all(),
        tracker.store().upcoming_id(),
        tracker.log().upcoming_id(),
    )
    .unwrap();
    assert_eq!(again.store().all(), tracker.store().all());
    assert_eq!(again.log().all(), tracker.log().all());
    assert_eq!(again.list_pending(), tracker.list_pending());
}

#[test]
fn restore_refuses_a_time_that_the_notes_do_not_record() {
    let tracker = busy();
    let mut todos = tracker.store().all();
    todos[0].total_time = 14;
    assert!(Tracker::restore(todos, tracker.log().all(), 4, 4).is_none());
}

#[test]
fn restore_refuses_a_note_without_its_todo() {
    let tracker = busy();
    let mut todos = tracker.store().all();
    todos.remove(1);
    assert!(Tracker::restore(todos, tracker.log().all(), 4, 4).is_none());
    let mut notes = tracker.log().all();
    notes[0].todo_id = 9;
    assert!(Tracker::restore(tracker.store().all(), notes, 4, 4).is_none());
}

#[test]
fn restore_refuses_a_time_beyond_the_counter() {
    let mut todo = Todo::new(1, String::from("A"), String::from("one"), 1, tick(10));
    todo.total_time = i32::MAX;
    let note = |id: i32, spent: i32| Progress {
        progress_id: id,
        todo_id: 1,
        note: String::from("n"),
        made_at: tick(1),
        time_spent: spent,
    };
    assert!(Tracker::restore(vec![todo.clone()], vec![note(1, i32::MAX)], 2, 2).is_some());
    assert!(
        Tracker::restore(vec![todo.clone()], vec![note(1, i32::MAX), note(2, 1)], 2, 3).is_none()
    );
}

#[test]
fn create_and_edit_refuse_empty_texts() {
    let mut tracker = busy();
    let todos = tracker.store().all();
    assert_eq!(
        tracker.create(String::new(), String::new(), 1, tick(1)),
        Err(AppError(Failure::Validation(Field::Project)))
    );
    assert_eq!(
        tracker.create(String::from("A"), String::new(), 1, tick(1)),
        Err(AppError(Failure::Validation(Field::Task)))
    );
    assert_eq!(
        tracker.edit(1, String::new(), String::from("t"), 1),
        Err(AppError(Failure::Validation(Field::Project)))
    );
    assert_eq!(
        tracker.edit(1, String::from("A"), String::new(), 1),
        Err(AppError(Failure::Validation(Field::Task)))
    );
    assert_eq!(
        tracker.edit(9, String::new(), String::new(), 1),
        Err(AppError(Failure::Validation(Field::Project)))
    );
    assert_eq!(tracker.store().all(), todos);
    assert_eq!(tracker.store().upcoming_id(), 4);
}
