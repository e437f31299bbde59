use todo_app::{AppError, Failure, Field, Progress, ProgressLog, Timestamp};

fn when(micros: i64) -> Timestamp {
    Timestamp::from_micros(micros).unwrap()
}

fn written() -> ProgressLog {
    let mut log = ProgressLog::new();
    log.append(1, String::from("first"), 30, when(100)).unwrap();
    log.append(2, String::from("other"), 5, when(200)).unwrap();
    log.append(1, String::from("second"), 15, when(300)).unwrap();
    log.append(1, String::from("nothing done"), 0, when(400)).unwrap();
    log
}

#[test]
fn append_hands_back_the_new_note() {
    let mut log = ProgressLog::new();
    let made = log.append(4, String::from("drafted intro"), 30, when(50)).unwrap();
    assert_eq!(
        made,
        Progress {
            progress_id: 1,
            todo_id: 4,
            note: String::from("drafted intro"),
            made_at: when(50),
            time_spent: 30,
        }
    );
    assert_eq!(log.all(), vec![made]);
    assert_eq!(log.upcoming_id(), 2);
}

#[test]
fn time_is_the_sum_of_the_durations_of_one_todo() {
    let log = written();
    assert_eq!(log.time_for(1), Some(45));
    assert_eq!(log.time_for(2), Some(5));
    assert_eq!(log.time_for(3), Some(0));
}

#[test]
fn time_beyond_the_counter_is_reported() {
    let mut log = ProgressLog::new();
    log.append(1, String::from("a"), i32::MAX, when(1)).unwrap();
    assert_eq!(log.time_for(1), Some(i32::MAX));
    log.append(1, String::from("b"), 1, when(2)).unwrap();
    assert_eq!(log.time_for(1), None);
    assert_eq!(log.time_for(2), Some(0));
}

#[test]
fn list_is_chronological() {
    let log = written();
    let ids: Vec<i32> = log.list_for(1).iter().map(|note| note.progress_id).collect();
    assert_eq!(ids, vec![1, 3, 4]);
    assert!(log.list_for(9).is_empty());
}

#[test]
fn list_goes_by_the_time_of_making_not_by_the_order_of_arrival() {
    let mut log = ProgressLog::new();
    log.append(1, String::from("late"), 1, when(900)).unwrap();
    log.append(1, String::from("early"), 2, when(100)).unwrap();
    log.append(1, String::from("late too"), 3, when(900)).unwrap();
    log.append(1, String::from("before the epoch"), 4, when(-1)).unwrap();
    let ids: Vec<i32> = log.list_for(1).iter().map(|note| note.progress_id).collect();
    assert_eq!(ids, vec![4, 2, 1, 3]);
}

#[test]
fn list_shows_text_duration_and_time() {
    let log = written();
    let list = log.list_for(2);
    assert_eq!(list.len(), 1);
    assert_eq!(list[0].progress_id, 2);
    assert_eq!(list[0].note, "other");
    assert_eq!(list[0].time_spent, 5);
    assert_eq!(list[0].made_at, when(200));
}

#[test]
fn delete_hands_back_the_stored_note() {
    let mut log = written();
    let removed = log.delete(3).unwrap();
    assert_eq!(removed.time_spent, 15);
    assert_eq!(removed.todo_id, 1);
    assert_eq!(removed.note, "second");
    assert_eq!(log.time_for(1), Some(30));
    assert_eq!(log.time_for(2), Some(5));
    assert_eq!(log.len(), 3);
    assert_eq!(log.delete(3), Err(AppError(Failure::NotFound)));
    assert_eq!(log.position(3), None);
    assert_eq!(log.position(4), Some(2));
}

#[test]
fn delete_for_takes_the_notes_of_one_todo() {
    let mut log = written();
    log.delete_for(1);
    let ids: Vec<i32> = log.all().iter().map(|note| note.progress_id).collect();
    assert_eq!(ids, vec![2]);
    assert_eq!(log.time_for(1), Some(0));
    assert_eq!(log.time_for(2), Some(5));
    log.delete_for(7);
    assert_eq!(log.len(), 1);
    assert_eq!(log.upcoming_id(), 5);
}

#[test]
fn a_note_of_negative_duration_is_refused() {
    let mut log = written();
    assert_eq!(
        log.append(1, String::from("x"), -1, when(1)),
        Err(AppError(Failure::Validation(Field::Duration)))
    );
    assert_eq!(log.len(), 4);
    assert_eq!(log.upcoming_id(), 5);
}

#[test]
fn a_full_log_takes_no_more_notes() {
    let mut log = ProgressLog::restore(vec![], i32::MAX as i64 + 1).unwrap();
    assert!(!log.has_room());
    assert_eq!(
        log.append(1, String::from("x"), 1, when(1)),
        Err(AppError(Failure::StoreUnavailable))
    );
    assert_eq!(log.len(), 0);
    let mut almost = ProgressLog::restore(vec![], i32::MAX as i64).unwrap();
    assert!(almost.has_room());
    assert_eq!(almost.append(1, String::from("x"), 1, when(1)).unwrap().progress_id, i32::MAX);
    assert!(!almost.has_room());
}

#[test]
fn restore_refuses_what_is_no_log() {
    let note = |id: i32, spent: i32| Progress {
        progress_id: id,
        todo_id: 1,
        note: String::from("n"),
        made_at: when(1),
        time_spent: spent,
    };
    assert!(ProgressLog::restore(vec![note(1, 0), note(5, 3)], 6).is_some());
    assert!(ProgressLog::restore(vec![note(1, 0), note(5, 3)], 5).is_none());
    assert!(ProgressLog::restore(vec![note(5, 0), note(1, 3)], 6).is_none());
    assert!(ProgressLog::restore(vec![note(1, 0), note(1, 3)], 6).is_none());
    assert!(ProgressLog::restore(vec![note(1, -1)], 6).is_none());
    assert!(ProgressLog::restore(vec![note(0, 1)], 6).is_none());
    assert!(ProgressLog::restore(vec![], 0).is_none());
}
