//! The lifecycle engine: a todo store and a progress log that change
//! together, so that the time of each todo is the time its notes record.

use crate::date::Timestamp;
use crate::error::{AppError, Failure, Field};
use crate::log::{is_progress_list, logged, note_of, shows_note, ProgressLog};
use crate::model::{
    lemma_create, lemma_deactivate, lemma_delete, lemma_delete_progress, lemma_with_todo,
    TrackerView,
};
use crate::records::{CompletedTodo, PendingTodo, Progress, ProgressNote, Todo, TotalTime};
use crate::store::{has_todo, is_completed_list, is_pending_list, todo_of, TodoStore};
use vstd::prelude::*;

verus! {

/// The todos and their progress notes.
pub struct Tracker {
    store: TodoStore,
    log: ProgressLog,
}

impl View for Tracker {
    type V = TrackerView;

    closed spec fn view(&self) -> TrackerView {
        TrackerView {
            todos: self.store@,
            notes: self.log@,
            next_todo_id: self.store.next_id(),
            next_progress_id: self.log.next_id(),
        }
    }
}

impl Tracker {
    /// The invariant of the tracker; see [`TrackerView::wf`].
    pub open spec fn wf(&self) -> bool {
        self@.wf()
    }

    /// A tracker with no todos and no notes.
    pub fn new() -> (tracker: Tracker)
        ensures
            tracker.wf(),
            tracker@ == TrackerView::empty(),
    {
        Tracker { store: TodoStore::new(), log: ProgressLog::new() }
    }

    /// A tracker of `todos` and `notes`, in their order, that gives
    /// `next_todo_id` and `next_progress_id` to the next todo and the next
    /// note; or nothing, where that would be no valid tracker.
    #[verifier::loop_isolation(false)]
    pub fn restore(
        todos: Vec<Todo>,
        notes: Vec<Progress>,
        next_todo_id: i64,
        next_progress_id: i64,
    ) -> (r: Option<Tracker>)
        ensures
            match r {
                Some(tracker) => {
                    &&& tracker.wf()
                    &&& tracker@ == (TrackerView {
                        todos: todos@,
                        notes: notes@,
                        next_todo_id: next_todo_id as int,
                        next_progress_id: next_progress_id as int,
                    })
                },
                None => !(TrackerView {
                    todos: todos@,
                    notes: notes@,
                    next_todo_id: next_todo_id as int,
                    next_progress_id: next_progress_id as int,
                }).wf(),
            },
    {
        let ghost given = TrackerView {
            todos: todos@,
            notes: notes@,
            next_todo_id: next_todo_id as int,
            next_progress_id: next_progress_id as int,
        };
        let store = match TodoStore::restore(todos, next_todo_id) {
            Some(store) => store,
            None => {
                return None;
            },
        };
        let log = match ProgressLog::restore(notes, next_progress_id) {
            Some(log) => log,
            None => {
                return None;
            },
        };
        let mut k: usize = 0;
        while k < log.len()
            invariant
                store.wf(),
                log.wf(),
                store@ == given.todos,
                log@ == given.notes,
                k <= log@.len(),
                forall|j: int| 0 <= j < k ==> has_todo(store@, (#[trigger] log@[j]).todo_id),
            decreases log@.len() - k,
        {
            if store.position(log.note_at(k).todo_id).is_none() {
                assert(!has_todo(given.todos, given.notes[k as int].todo_id));
                return None;
            }
            k = k + 1;
        }
        let mut i: usize = 0;
        while i < store.len()
            invariant
                store.wf(),
                log.wf(),
                store@ == given.todos,
                log@ == given.notes,
                i <= store@.len(),
                forall|j: int|
                    0 <= j < i ==> (#[trigger] store@[j]).total_time == logged(
                        log@,
                        store@[j].todo_id,
                    ),
            decreases store@.len() - i,
        {
            let ghost todo = given.todos[i as int];
            match log.time_for(store.todo_at(i).todo_id) {
                Some(time) => {
                    if time != store.todo_at(i).total_time {
                        assert(todo.total_time != logged(given.notes, todo.todo_id));
                        return None;
                    }
                },
                None => {
                    assert(todo.total_time != logged(given.notes, todo.todo_id));
                    return None;
                },
            }
            i = i + 1;
        }
        let tracker = Tracker { store, log };
        assert(tracker@ =~= given);
        Some(tracker)
    }

    /// The todo store.
    pub fn store(&self) -> (store: &TodoStore)
        ensures
            store@ == self@.todos,
            store.next_id() == self@.next_todo_id,
    {
        &self.store
    }

    /// The progress log.
    pub fn log(&self) -> (log: &ProgressLog)
        ensures
            log@ == self@.notes,
            log.next_id() == self@.next_progress_id,
    {
        &self.log
    }

    /// Adds a pending todo with no time spent, created at `now`, and hands
    /// back a copy of it. Project and task must not be empty.
    pub fn create(&mut self, project: String, task: String, task_priority: i32, now: Timestamp) -> (r:
        Result<Todo, AppError>)
        requires
            old(self).wf(),
        ensures
            final(self).wf(),
            match r {
                Ok(todo) => {
                    &&& old(self)@.create(project, task, task_priority, now) == Ok::<
                        TrackerView,
                        AppError,
                    >(final(self)@)
                    &&& todo == final(self)@.todos.last()
                },
                Err(e) => {
                    &&& old(self)@.create(project, task, task_priority, now) == Err::<
                        TrackerView,
                        AppError,
                    >(e)
                    &&& final(self)@ == old(self)@
                },
            },
    {
        let ghost given = (project, task);
        if project.as_str().is_empty() {
            return Err(AppError::invalid(Field::Project));
        }
        if task.as_str().is_empty() {
            return Err(AppError::invalid(Field::Task));
        }
        let r = self.store.create(project, task, task_priority, now);
        proof {
            if r is Ok {
                lemma_create(old(self)@, given.0, given.1, task_priority, now);
                assert(self@ =~= old(self)@.create(given.0, given.1, task_priority, now)->Ok_0);
            }
        }
        r
    }

    /// A copy of the todo `id`.
    pub fn get(&self, id: i32) -> (r: Result<Todo, AppError>)
        requires
            self.wf(),
        ensures
            match r {
                Ok(todo) => has_todo(self@.todos, id) && todo == todo_of(self@.todos, id),
                Err(e) => !has_todo(self@.todos, id) && e == AppError(Failure::NotFound),
            },
    {
        self.store.get(id)
    }

    /// The cumulative time of the todo `id`.
    pub fn total_time(&self, id: i32) -> (r: Result<TotalTime, AppError>)
        requires
            self.wf(),
        ensures
            match r {
                Ok(total) => has_todo(self@.todos, id) && total.total_time == todo_of(
                    self@.todos,
                    id,
                ).total_time,
                Err(e) => !has_todo(self@.todos, id) && e == AppError(Failure::NotFound),
            },
    {
        match self.store.get(id) {
            Ok(todo) => Ok(TotalTime { total_time: todo.total_time }),
            Err(e) => Err(e),
        }
    }

    /// Marks the todo `id` completed at `now`, whatever state it was in, and
    /// hands back a copy of it.
    pub fn complete(&mut self, id: i32, now: Timestamp) -> (r: Result<Todo, AppError>)
        requires
            old(self).wf(),
        ensures
            final(self).wf(),
            match r {
                Ok(todo) => {
                    &&& old(self)@.complete(id, now) == Ok::<TrackerView, AppError>(final(self)@)
                    &&& todo == todo_of(old(self)@.todos, id).after_complete(now)
                    &&& todo == todo_of(final(self)@.todos, id)
                },
                Err(e) => {
                    &&& old(self)@.complete(id, now) == Err::<TrackerView, AppError>(e)
                    &&& final(self)@ == old(self)@
                },
            },
    {
        let r = self.store.complete(id, now);
        proof {
            if r is Ok {
                lemma_with_todo(old(self)@, id, r->Ok_0);
                assert(self@ =~= old(self)@.complete(id, now)->Ok_0);
            }
        }
        r
    }

    /// Takes the completion of the todo `id` back and hands back a copy of
    /// the todo. Its cumulative time stays.
    pub fn revert(&mut self, id: i32) -> (r: Result<Todo, AppError>)
        requires
            old(self).wf(),
        ensures
            final(self).wf(),
            match r {
                Ok(todo) => {
                    &&& old(self)@.revert(id) == Ok::<TrackerView, AppError>(final(self)@)
                    &&& todo == todo_of(old(self)@.todos, id).after_revert()
                    &&& todo == todo_of(final(self)@.todos, id)
                },
                Err(e) => {
                    &&& old(self)@.revert(id) == Err::<TrackerView, AppError>(e)
                    &&& final(self)@ == old(self)@
                },
            },
    {
        let r = self.store.revert(id);
        proof {
            if r is Ok {
                lemma_with_todo(old(self)@, id, r->Ok_0);
                assert(self@ =~= old(self)@.revert(id)->Ok_0);
            }
        }
        r
    }

    /// Marks the todo `id` active and hands back a copy of it.
    pub fn activate(&mut self, id: i32) -> (r: Result<Todo, AppError>)
        requires
            old(self).wf(),
        ensures
            final(self).wf(),
            match r {
                Ok(todo) => {
                    &&& old(self)@.activate(id) == Ok::<TrackerView, AppError>(final(self)@)
                    &&& todo == todo_of(old(self)@.todos, id).after_activate()
                    &&& todo == todo_of(final(self)@.todos, id)
                },
                Err(e) => {
                    &&& old(self)@.activate(id) == Err::<TrackerView, AppError>(e)
                    &&& final(self)@ == old(self)@
                },
            },
    {
        let r = self.store.activate(id);
        proof {
            if r is Ok {
                lemma_with_todo(old(self)@, id, r->Ok_0);
                assert(self@ =~= old(self)@.activate(id)->Ok_0);
            }
        }
        r
    }

    /// Overwrites project, task and priority of the todo `id` and hands back
    /// a copy of it. Project and task must not be empty.
    pub fn edit(&mut self, id: i32, project: String, task: String, task_priority: i32) -> (r: Result<
        Todo,
        AppError,
    >)
        requires
            old(self).wf(),
        ensures
            final(self).wf(),
            match r {
                Ok(todo) => {
                    &&& old(self)@.edit(id, project, task, task_priority) == Ok::<
                        TrackerView,
                        AppError,
                    >(final(self)@)
                    &&& todo == todo_of(old(self)@.todos, id).after_edit(project, task, task_priority)
                    &&& todo == todo_of(final(self)@.todos, id)
                },
                Err(e) => {
                    &&& old(self)@.edit(id, project, task, task_priority) == Err::<
                        TrackerView,
                        AppError,
                    >(e)
                    &&& final(self)@ == old(self)@
                },
            },
    {
        let ghost given = (project, task);
        if project.as_str().is_empty() {
            return Err(AppError::invalid(Field::Project));
        }
        if task.as_str().is_empty() {
            return Err(AppError::invalid(Field::Task));
        }
        let r = self.store.update(id, project, task, task_priority);
        proof {
            if r is Ok {
                lemma_with_todo(old(self)@, id, r->Ok_0);
                assert(self@ =~= old(self)@.edit(id, given.0, given.1, task_priority)->Ok_0);
            }
        }
        r
    }

    /// Deactivates the todo `id`, whether it was active or not: makes a note
    /// of `duration` for it at `now`, ends its activity and adds `duration`
    /// to its cumulative time, all or nothing. Hands back a copy of the todo
    /// and of the note.
    pub fn deactivate(&mut self, id: i32, note: String, duration: i32, now: Timestamp) -> (r: Result<
        (Todo, Progress),
        AppError,
    >)
        requires
            old(self).wf(),
        ensures
            final(self).wf(),
            match r {
                Ok((todo, made)) => {
                    &&& old(self)@.deactivate(id, note, duration, now) == Ok::<
                        TrackerView,
                        AppError,
                    >(final(self)@)
                    &&& todo == todo_of(old(self)@.todos, id).after_deactivate(duration)
                    &&& todo == todo_of(final(self)@.todos, id)
                    &&& made == old(self)@.next_note(id, note, duration, now)
                    &&& made == final(self)@.notes.last()
                },
                Err(e) => {
                    &&& old(self)@.deactivate(id, note, duration, now) == Err::<
                        TrackerView,
                        AppError,
                    >(e)
                    &&& final(self)@ == old(self)@
                },
            },
    {
        if duration < 0 {
            return Err(AppError::invalid(Field::Duration));
        }
        if self.store.position(id).is_none() {
            return Err(AppError::not_found());
        }
        if !self.log.has_room() {
            return Err(AppError::store_unavailable());
        }
        let ghost given = note;
        match self.store.deactivate(id, duration) {
            Ok(todo) => {
                match self.log.append(id, note, duration, now) {
                    Ok(made) => {
                        proof {
                            lemma_deactivate(old(self)@, id, given, duration, now);
                            assert(self@ =~= old(self)@.deactivate(id, given, duration, now)->Ok_0);
                        }
                        Ok((todo, made))
                    },
                    Err(e) => Err(e),
                }
            },
            Err(e) => Err(e),
        }
    }

    /// Removes the todo `id` and every note about it, and hands the todo
    /// back.
    pub fn delete(&mut self, id: i32) -> (r: Result<Todo, AppError>)
        requires
            old(self).wf(),
        ensures
            final(self).wf(),
            match r {
                Ok(todo) => {
                    &&& old(self)@.delete(id) == Ok::<TrackerView, AppError>(final(self)@)
                    &&& todo == todo_of(old(self)@.todos, id)
                    &&& !has_todo(final(self)@.todos, id)
                },
                Err(e) => {
                    &&& old(self)@.delete(id) == Err::<TrackerView, AppError>(e)
                    &&& final(self)@ == old(self)@
                },
            },
    {
        match self.store.delete(id) {
            Ok(todo) => {
                self.log.delete_for(id);
                proof {
                    lemma_delete(old(self)@, id);
                    assert(self@ =~= old(self)@.delete(id)->Ok_0);
                }
                Ok(todo)
            },
            Err(e) => Err(e),
        }
    }

    /// Removes the progress note `id` and takes the duration that it was
    /// stored with off the cumulative time of its todo, all or nothing. Hands
    /// back the note and a copy of the todo.
    pub fn delete_progress(&mut self, id: i32) -> (r: Result<(Progress, Todo), AppError>)
        requires
            old(self).wf(),
        ensures
            final(self).wf(),
            match r {
                Ok((removed, todo)) => {
                    &&& old(self)@.delete_progress(id) == Ok::<TrackerView, AppError>(final(self)@)
                    &&& removed == note_of(old(self)@.notes, id)
                    &&& todo == todo_of(old(self)@.todos, removed.todo_id).after_removal(
                        removed.time_spent,
                    )
                    &&& todo == todo_of(final(self)@.todos, removed.todo_id)
                    &&& todo.total_time == todo_of(old(self)@.todos, removed.todo_id).total_time
                        - removed.time_spent
                },
                Err(e) => {
                    &&& old(self)@.delete_progress(id) == Err::<TrackerView, AppError>(e)
                    &&& final(self)@ == old(self)@
                },
            },
    {
        match self.log.delete(id) {
            Ok(removed) => {
                proof {
                    lemma_delete_progress(old(self)@, id);
                }
                match self.store.remove_time(removed.todo_id, removed.time_spent) {
                    Ok(todo) => {
                        proof {
                            assert(self@ =~= old(self)@.delete_progress(id)->Ok_0);
                        }
                        Ok((removed, todo))
                    },
                    Err(e) => Err(e),
                }
            },
            Err(e) => Err(e),
        }
    }

    /// The todos that are not completed, by priority from high to low; todos
    /// of equal priority stand in the order of their creation.
    pub fn list_pending(&self) -> (list: Vec<PendingTodo>)
        requires
            self.wf(),
        ensures
            is_pending_list(self@.todos, list@),
    {
        self.store.list_pending()
    }

    /// The completed todos, from the latest completion to the earliest;
    /// todos completed at the same instant stand in the order of their
    /// creation.
    pub fn list_completed(&self) -> (list: Vec<CompletedTodo>)
        requires
            self.wf(),
        ensures
            is_completed_list(self@.todos, list@),
    {
        self.store.list_completed()
    }

    /// The notes about the todo `todo_id`, from the earliest to the latest;
    /// notes of the same instant stand in the order in which they were made.
    /// A todo that the store does not have has no notes.
    pub fn progress_for(&self, todo_id: i32) -> (list: Vec<ProgressNote>)
        requires
            self.wf(),
        ensures
            is_progress_list(self@.notes, todo_id, list@),
            !has_todo(self@.todos, todo_id) ==> list@.len() == 0,
    {
        let list = self.log.list_for(todo_id);
        proof {
            if !has_todo(self@.todos, todo_id) && list@.len() > 0 {
                let shown = list@[0];
                assert(shows_note(self@.notes, todo_id, shown));
            }
        }
        list
    }
}

} // verus!
