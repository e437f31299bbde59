//! The lifecycle of todos as a state machine over plain values: what each
//! command makes of a state, and what holds of every state that commands
//! lead to.

use crate::date::Timestamp;
use crate::error::{AppError, Failure, Field};
use crate::log::{
    has_note, lemma_logged_covers, lemma_logged_nothing, lemma_logged_push, lemma_logged_remove,
    lemma_without, logged, note_of, notes_valid, place_of_note, without,
};
use crate::records::{CompletedTodo, PendingTodo, Progress, Todo};
use crate::store::{
    has_todo, is_completed_list, is_pending_list, lemma_place_of, place_of, shows_completed,
    shows_pending, todo_of, todos_valid,
};
use vstd::prelude::*;

verus! {

/// The state of a tracker: its todos and notes, each in the order of their
/// making, and the identifiers that the next todo and the next note will get.
#[verifier::ext_equal]
pub struct TrackerView {
    pub todos: Seq<Todo>,
    pub notes: Seq<Progress>,
    pub next_todo_id: int,
    pub next_progress_id: int,
}

impl TrackerView {
    /// The invariant of a tracker. The store and the log are each valid, every
    /// note is about a todo of the store, and the cumulative time of every
    /// todo is the sum of the durations of its notes.
    pub open spec fn wf(self) -> bool {
        &&& todos_valid(self.todos, self.next_todo_id)
        &&& notes_valid(self.notes, self.next_progress_id)
        &&& forall|k: int|
            0 <= k < self.notes.len() ==> has_todo(self.todos, (#[trigger] self.notes[k]).todo_id)
        &&& forall|i: int|
            0 <= i < self.todos.len() ==> (#[trigger] self.todos[i]).total_time == logged(
                self.notes,
                self.todos[i].todo_id,
            )
    }

    /// The state with no todos and no notes.
    pub open spec fn empty() -> TrackerView {
        TrackerView {
            todos: Seq::empty(),
            notes: Seq::empty(),
            next_todo_id: 1,
            next_progress_id: 1,
        }
    }

    /// The state in which `changed` stands in the place of the todo `id`.
    pub open spec fn with_todo(self, id: i32, changed: Todo) -> TrackerView {
        TrackerView { todos: self.todos.update(place_of(self.todos, id), changed), ..self }
    }

    /// What is asked of the texts of a todo: neither project nor task is
    /// empty. The project is looked at first.
    pub open spec fn texts(project: String, task: String) -> Result<(), AppError> {
        if project@.len() == 0 {
            Err(AppError(Failure::Validation(Field::Project)))
        } else if task@.len() == 0 {
            Err(AppError(Failure::Validation(Field::Task)))
        } else {
            Ok(())
        }
    }

    /// Create: a pending todo with no time spent comes last.
    pub open spec fn create(
        self,
        project: String,
        task: String,
        task_priority: i32,
        now: Timestamp,
    ) -> Result<TrackerView, AppError> {
        if TrackerView::texts(project, task) is Err {
            Err(TrackerView::texts(project, task)->Err_0)
        } else if self.next_todo_id > i32::MAX {
            Err(AppError(Failure::StoreUnavailable))
        } else {
            Ok(
                TrackerView {
                    todos: self.todos.push(
                        Todo::fresh(self.next_todo_id as i32, project, task, task_priority, now),
                    ),
                    next_todo_id: self.next_todo_id + 1,
                    ..self
                },
            )
        }
    }

    /// Complete: the todo `id` is completed at `now`.
    pub open spec fn complete(self, id: i32, now: Timestamp) -> Result<TrackerView, AppError> {
        if has_todo(self.todos, id) {
            Ok(self.with_todo(id, todo_of(self.todos, id).after_complete(now)))
        } else {
            Err(AppError(Failure::NotFound))
        }
    }

    /// Revert: the completion of the todo `id` is taken back.
    pub open spec fn revert(self, id: i32) -> Result<TrackerView, AppError> {
        if has_todo(self.todos, id) {
            Ok(self.with_todo(id, todo_of(self.todos, id).after_revert()))
        } else {
            Err(AppError(Failure::NotFound))
        }
    }

    /// Activate: the todo `id` is active.
    pub open spec fn activate(self, id: i32) -> Result<TrackerView, AppError> {
        if has_todo(self.todos, id) {
            Ok(self.with_todo(id, todo_of(self.todos, id).after_activate()))
        } else {
            Err(AppError(Failure::NotFound))
        }
    }

    /// Edit: project, task and priority of the todo `id` are overwritten.
    pub open spec fn edit(self, id: i32, project: String, task: String, task_priority: i32) -> Result<
        TrackerView,
        AppError,
    > {
        if TrackerView::texts(project, task) is Err {
            Err(TrackerView::texts(project, task)->Err_0)
        } else if has_todo(self.todos, id) {
            Ok(self.with_todo(id, todo_of(self.todos, id).after_edit(project, task, task_priority)))
        } else {
            Err(AppError(Failure::NotFound))
        }
    }

    /// The note that deactivating the todo `id` in this state makes.
    pub open spec fn next_note(self, id: i32, note: String, duration: i32, now: Timestamp) -> Progress {
        Progress {
            progress_id: self.next_progress_id as i32,
            todo_id: id,
            note,
            made_at: now,
            time_spent: duration,
        }
    }

    /// Deactivate: in one step a note of `duration` is made for the todo
    /// `id`, the todo stops being active, and its cumulative time grows by
    /// `duration`.
    pub open spec fn deactivate(self, id: i32, note: String, duration: i32, now: Timestamp) -> Result<
        TrackerView,
        AppError,
    > {
        if duration < 0 {
            Err(AppError(Failure::Validation(Field::Duration)))
        } else if !has_todo(self.todos, id) {
            Err(AppError(Failure::NotFound))
        } else if todo_of(self.todos, id).total_time + duration > i32::MAX || self.next_progress_id
            > i32::MAX {
            Err(AppError(Failure::StoreUnavailable))
        } else {
            Ok(
                TrackerView {
                    todos: self.todos.update(
                        place_of(self.todos, id),
                        todo_of(self.todos, id).after_deactivate(duration),
                    ),
                    notes: self.notes.push(self.next_note(id, note, duration, now)),
                    next_progress_id: self.next_progress_id + 1,
                    ..self
                },
            )
        }
    }

    /// Delete: the todo `id` goes, and its notes go with it.
    pub open spec fn delete(self, id: i32) -> Result<TrackerView, AppError> {
        if has_todo(self.todos, id) {
            Ok(
                TrackerView {
                    todos: self.todos.remove(place_of(self.todos, id)),
                    notes: without(self.notes, id),
                    ..self
                },
            )
        } else {
            Err(AppError(Failure::NotFound))
        }
    }

    /// Delete a progress note: in one step the note `id` goes and the
    /// duration that it was stored with comes off the cumulative time of its
    /// todo.
    pub open spec fn delete_progress(self, id: i32) -> Result<TrackerView, AppError> {
        if has_note(self.notes, id) {
            let note = note_of(self.notes, id);
            Ok(
                TrackerView {
                    todos: self.todos.update(
                        place_of(self.todos, note.todo_id),
                        todo_of(self.todos, note.todo_id).after_removal(note.time_spent),
                    ),
                    notes: self.notes.remove(place_of_note(self.notes, id)),
                    ..self
                },
            )
        } else {
            Err(AppError(Failure::NotFound))
        }
    }
}

/// A command to a tracker.
pub enum Command {
    Create { project: String, task: String, task_priority: i32, now: Timestamp },
    Complete { id: i32, now: Timestamp },
    Revert { id: i32 },
    Activate { id: i32 },
    Deactivate { id: i32, note: String, duration: i32, now: Timestamp },
    Edit { id: i32, project: String, task: String, task_priority: i32 },
    Delete { id: i32 },
    DeleteProgress { id: i32 },
}

impl TrackerView {
    /// What `command` makes of the state, or why it is not applied.
    pub open spec fn apply(self, command: Command) -> Result<TrackerView, AppError> {
        match command {
            Command::Create { project, task, task_priority, now } => self.create(
                project,
                task,
                task_priority,
                now,
            ),
            Command::Complete { id, now } => self.complete(id, now),
            Command::Revert { id } => self.revert(id),
            Command::Activate { id } => self.activate(id),
            Command::Deactivate { id, note, duration, now } => self.deactivate(
                id,
                note,
                duration,
                now,
            ),
            Command::Edit { id, project, task, task_priority } => self.edit(
                id,
                project,
                task,
                task_priority,
            ),
            Command::Delete { id } => self.delete(id),
            Command::DeleteProgress { id } => self.delete_progress(id),
        }
    }

    /// The state after `commands`, one after the other. A command that fails
    /// leaves the state as it was.
    pub open spec fn run(self, commands: Seq<Command>) -> TrackerView
        decreases commands.len(),
    {
        if commands.len() == 0 {
            self
        } else {
            let before = self.run(commands.drop_last());
            match before.apply(commands.last()) {
                Ok(after) => after,
                Err(_) => before,
            }
        }
    }
}

/// A todo that takes the place of the todo `id`, under the same identifier
/// and with the same cumulative time, leaves the state valid.
pub proof fn lemma_with_todo(state: TrackerView, id: i32, changed: Todo)
    requires
        state.wf(),
        has_todo(state.todos, id),
        changed.wf(),
        changed.todo_id == id,
        changed.total_time == todo_of(state.todos, id).total_time,
    ensures
        state.with_todo(id, changed).wf(),
        has_todo(state.with_todo(id, changed).todos, id),
        todo_of(state.with_todo(id, changed).todos, id) == changed,
{
    let after = state.with_todo(id, changed);
    let p = place_of(state.todos, id);
    assert forall|k: int| 0 <= k < after.notes.len() implies has_todo(
        after.todos,
        (#[trigger] after.notes[k]).todo_id,
    ) by {
        let owner = state.notes[k].todo_id;
        assert(has_todo(state.todos, owner));
        let j = place_of(state.todos, owner);
        assert(after.todos[j].todo_id == owner);
    }
    assert(after.todos[p] == changed);
    lemma_place_of(after.todos, p);
}

/// Create keeps the invariant.
pub proof fn lemma_create(
    state: TrackerView,
    project: String,
    task: String,
    task_priority: i32,
    now: Timestamp,
)
    requires
        state.wf(),
        state.create(project, task, task_priority, now) is Ok,
    ensures
        state.create(project, task, task_priority, now)->Ok_0.wf(),
{
    let after = state.create(project, task, task_priority, now)->Ok_0;
    let made = Todo::fresh(state.next_todo_id as i32, project, task, task_priority, now);
    assert forall|k: int| 0 <= k < state.notes.len() implies (#[trigger] state.notes[k]).todo_id
        != made.todo_id by {
        let owner = state.notes[k].todo_id;
        assert(has_todo(state.todos, owner));
        let j = place_of(state.todos, owner);
        assert(state.todos[j].todo_id < state.next_todo_id);
    }
    lemma_logged_nothing(state.notes, made.todo_id);
    assert forall|k: int| 0 <= k < after.notes.len() implies has_todo(
        after.todos,
        (#[trigger] after.notes[k]).todo_id,
    ) by {
        let owner = state.notes[k].todo_id;
        assert(has_todo(state.todos, owner));
        let j = place_of(state.todos, owner);
        assert(after.todos[j].todo_id == owner);
    }
    assert forall|i: int| 0 <= i < after.todos.len() implies (#[trigger] after.todos[i]).total_time
        == logged(after.notes, after.todos[i].todo_id) by {
        if i < state.todos.len() {
            assert(after.todos[i] == state.todos[i]);
        }
    }
}

/// Deactivate keeps the invariant, and does what it says: exactly one note is
/// made, of the given duration and about the todo; the todo is no longer
/// active; and its cumulative time, like the time that the notes record for
/// it, has grown by the duration.
pub proof fn lemma_deactivate(
    state: TrackerView,
    id: i32,
    note: String,
    duration: i32,
    now: Timestamp,
)
    requires
        state.wf(),
        state.deactivate(id, note, duration, now) is Ok,
    ensures
        state.deactivate(id, note, duration, now)->Ok_0.wf(),
        ({
            let after = state.deactivate(id, note, duration, now)->Ok_0;
            let before = todo_of(state.todos, id);
            &&& after.notes.len() == state.notes.len() + 1
            &&& after.notes.drop_last() == state.notes
            &&& after.notes.last().todo_id == id
            &&& after.notes.last().time_spent == duration
            &&& has_todo(after.todos, id)
            &&& todo_of(after.todos, id) == before.after_deactivate(duration)
            &&& !todo_of(after.todos, id).is_active
            &&& todo_of(after.todos, id).total_time == before.total_time + duration
            &&& logged(after.notes, id) == logged(state.notes, id) + duration
        }),
{
    let after = state.deactivate(id, note, duration, now)->Ok_0;
    let p = place_of(state.todos, id);
    let made = state.next_note(id, note, duration, now);
    assert(after.todos[p].todo_id == id);
    lemma_place_of(after.todos, p);
    assert(after.notes.drop_last() =~= state.notes);
    lemma_logged_push(state.notes, made, id);
    assert forall|k: int| 0 <= k < after.notes.len() implies has_todo(
        after.todos,
        (#[trigger] after.notes[k]).todo_id,
    ) by {
        if k < state.notes.len() {
            let owner = state.notes[k].todo_id;
            assert(has_todo(state.todos, owner));
            let j = place_of(state.todos, owner);
            assert(after.todos[j].todo_id == owner);
        }
    }
    assert forall|i: int| 0 <= i < after.todos.len() implies (#[trigger] after.todos[i]).total_time
        == logged(after.notes, after.todos[i].todo_id) by {
        lemma_logged_push(state.notes, made, after.todos[i].todo_id);
        if i != p {
            assert(after.todos[i] == state.todos[i]);
            if i < p {
                assert(state.todos[i].todo_id < state.todos[p].todo_id);
            } else {
                assert(state.todos[p].todo_id < state.todos[i].todo_id);
            }
        }
    }
}

/// Delete keeps the invariant: the notes of the todo go with it.
pub proof fn lemma_delete(state: TrackerView, id: i32)
    requires
        state.wf(),
        state.delete(id) is Ok,
    ensures
        state.delete(id)->Ok_0.wf(),
        !has_todo(state.delete(id)->Ok_0.todos, id),
{
    let after = state.delete(id)->Ok_0;
    let p = place_of(state.todos, id);
    lemma_without(state.notes, id);
    assert forall|i: int| 0 <= i < after.todos.len() implies (#[trigger] after.todos[i])
        == state.todos[if i < p {
        i
    } else {
        i + 1
    }] by {}
    assert forall|i: int| 0 <= i < after.todos.len() implies (#[trigger] after.todos[i]).todo_id
        != id by {
        if i < p {
            assert(state.todos[i].todo_id < state.todos[p].todo_id);
        } else {
            assert(state.todos[p].todo_id < state.todos[i + 1].todo_id);
        }
    }
    assert forall|k: int| 0 <= k < after.notes.len() implies has_todo(
        after.todos,
        (#[trigger] after.notes[k]).todo_id,
    ) by {
        let kept = after.notes[k];
        assert(state.notes.contains(kept));
        let q = choose|q: int| 0 <= q < state.notes.len() && state.notes[q] == kept;
        assert(has_todo(state.todos, state.notes[q].todo_id));
        let j = place_of(state.todos, kept.todo_id);
        if j < p {
            assert(after.todos[j].todo_id == kept.todo_id);
        } else {
            assert(after.todos[j - 1].todo_id == kept.todo_id);
        }
    }
    assert forall|k: int| 0 <= k < after.notes.len() implies 1 <= (
    #[trigger] after.notes[k]).progress_id < after.next_progress_id && after.notes[k].time_spent
        >= 0 by {
        let kept = after.notes[k];
        assert(state.notes.contains(kept));
        let q = choose|q: int| 0 <= q < state.notes.len() && state.notes[q] == kept;
        assert(state.notes[q].time_spent >= 0);
    }
    assert forall|i: int| 0 <= i < after.todos.len() implies (#[trigger] after.todos[i]).total_time
        == logged(after.notes, after.todos[i].todo_id) by {
        let j = if i < p { i } else { i + 1 };
        assert(state.todos[j].total_time == logged(state.notes, state.todos[j].todo_id));
    }
}

/// Deleting a progress note keeps the invariant, and takes the duration that
/// the note was stored with, and nothing else, off the cumulative time of its
/// todo.
pub proof fn lemma_delete_progress(state: TrackerView, id: i32)
    requires
        state.wf(),
        has_note(state.notes, id),
    ensures
        state.delete_progress(id) is Ok,
        state.delete_progress(id)->Ok_0.wf(),
        ({
            let after = state.delete_progress(id)->Ok_0;
            let note = note_of(state.notes, id);
            &&& has_todo(state.todos, note.todo_id)
            &&& has_todo(after.todos, note.todo_id)
            &&& 0 <= note.time_spent <= todo_of(state.todos, note.todo_id).total_time
            &&& todo_of(after.todos, note.todo_id) == todo_of(
                state.todos,
                note.todo_id,
            ).after_removal(note.time_spent)
            &&& todo_of(after.todos, note.todo_id).total_time == todo_of(
                state.todos,
                note.todo_id,
            ).total_time - note.time_spent
            &&& !has_note(after.notes, id)
            &&& after.notes.len() == state.notes.len() - 1
        }),
{
    let after = state.delete_progress(id)->Ok_0;
    let q = place_of_note(state.notes, id);
    let note = state.notes[q];
    assert(has_todo(state.todos, note.todo_id));
    let p = place_of(state.todos, note.todo_id);
    let owner = state.todos[p];
    lemma_logged_covers(state.notes, q);
    assert(after.todos[p].todo_id == note.todo_id);
    lemma_place_of(after.todos, p);
    assert forall|k: int| 0 <= k < after.notes.len() implies (#[trigger] after.notes[k])
        == state.notes[if k < q {
        k
    } else {
        k + 1
    }] by {}
    assert forall|k: int| 0 <= k < after.notes.len() implies (#[trigger] after.notes[k]).progress_id
        != id by {
        if k < q {
            assert(state.notes[k].progress_id < state.notes[q].progress_id);
        } else {
            assert(state.notes[q].progress_id < state.notes[k + 1].progress_id);
        }
    }
    assert forall|k: int| 0 <= k < after.notes.len() implies has_todo(
        after.todos,
        (#[trigger] after.notes[k]).todo_id,
    ) by {
        let kept = state.notes[if k < q { k } else { k + 1 }];
        assert(has_todo(state.todos, kept.todo_id));
        let j = place_of(state.todos, kept.todo_id);
        assert(after.todos[j].todo_id == kept.todo_id);
    }
    assert forall|i: int| 0 <= i < after.todos.len() implies (#[trigger] after.todos[i]).total_time
        == logged(after.notes, after.todos[i].todo_id) by {
        lemma_logged_remove(state.notes, q, after.todos[i].todo_id);
        if i != p {
            assert(after.todos[i] == state.todos[i]);
            if i < p {
                assert(state.todos[i].todo_id < state.todos[p].todo_id);
            } else {
                assert(state.todos[p].todo_id < state.todos[i].todo_id);
            }
        }
    }
}

/// Completing a todo takes it off the pending list and puts it on the
/// completed list, under the time of its completion.
pub proof fn lemma_complete(state: TrackerView, id: i32, now: Timestamp)
    requires
        state.wf(),
        has_todo(state.todos, id),
    ensures
        state.complete(id, now) is Ok,
        state.complete(id, now)->Ok_0.wf(),
        ({
            let after = state.complete(id, now)->Ok_0;
            let todo = todo_of(after.todos, id);
            &&& has_todo(after.todos, id)
            &&& todo.completed
            &&& todo.completed_at == Some(now)
            &&& !todo.is_active
            &&& todo.total_time == todo_of(state.todos, id).total_time
            &&& after.notes == state.notes
            &&& forall|list: Seq<CompletedTodo>| #[trigger]
                is_completed_list(after.todos, list) ==> list.contains(todo.finished())
            &&& forall|list: Seq<PendingTodo>, k: int|
                #![trigger is_pending_list(after.todos, list), list[k]]
                is_pending_list(after.todos, list) && 0 <= k < list.len() ==> list[k].todo_id
                    != id
        }),
{
    let changed = todo_of(state.todos, id).after_complete(now);
    lemma_with_todo(state, id, changed);
    let after = state.complete(id, now)->Ok_0;
    let p = place_of(state.todos, id);
    assert(after.todos[p] == changed);
    assert forall|list: Seq<PendingTodo>, k: int|
        #![trigger is_pending_list(after.todos, list), list[k]]
        is_pending_list(after.todos, list) && 0 <= k < list.len() implies list[k].todo_id
        != id by {
        assert(shows_pending(after.todos, list[k]));
        let i = choose|i: int|
            0 <= i < after.todos.len() && !(#[trigger] after.todos[i]).completed
                && after.todos[i].pending() == list[k];
        if list[k].todo_id == id {
            lemma_place_of(after.todos, i);
        }
    }
}

/// Reverting a completed todo clears its completion and the time of it,
/// leaves its cumulative time and every note as they were, and puts the todo
/// back on the pending list and off the completed list.
pub proof fn lemma_revert(state: TrackerView, id: i32)
    requires
        state.wf(),
        has_todo(state.todos, id),
        todo_of(state.todos, id).completed,
    ensures
        state.revert(id) is Ok,
        state.revert(id)->Ok_0.wf(),
        ({
            let after = state.revert(id)->Ok_0;
            let todo = todo_of(after.todos, id);
            &&& has_todo(after.todos, id)
            &&& !todo.completed
            &&& todo.completed_at is None
            &&& todo.total_time == todo_of(state.todos, id).total_time
            &&& after.notes == state.notes
            &&& forall|list: Seq<PendingTodo>| #[trigger]
                is_pending_list(after.todos, list) ==> list.contains(todo.pending())
            &&& forall|list: Seq<CompletedTodo>, k: int|
                #![trigger is_completed_list(after.todos, list), list[k]]
                is_completed_list(after.todos, list) && 0 <= k < list.len() ==> list[k].todo_id
                    != id
        }),
{
    let changed = todo_of(state.todos, id).after_revert();
    lemma_with_todo(state, id, changed);
    let after = state.revert(id)->Ok_0;
    let p = place_of(state.todos, id);
    assert(after.todos[p] == changed);
    assert forall|list: Seq<CompletedTodo>, k: int|
        #![trigger is_completed_list(after.todos, list), list[k]]
        is_completed_list(after.todos, list) && 0 <= k < list.len() implies list[k].todo_id
        != id by {
        assert(shows_completed(after.todos, list[k]));
        let i = choose|i: int|
            0 <= i < after.todos.len() && (#[trigger] after.todos[i]).completed
                && after.todos[i].finished() == list[k];
        if list[k].todo_id == id {
            lemma_place_of(after.todos, i);
        }
    }
}

/// Every command that is applied leads from a valid state to a valid state.
pub proof fn lemma_apply(state: TrackerView, command: Command)
    requires
        state.wf(),
        state.apply(command) is Ok,
    ensures
        state.apply(command)->Ok_0.wf(),
{
    match command {
        Command::Create { project, task, task_priority, now } => {
            lemma_create(state, project, task, task_priority, now);
        },
        Command::Complete { id, now } => {
            lemma_with_todo(state, id, todo_of(state.todos, id).after_complete(now));
        },
        Command::Revert { id } => {
            lemma_with_todo(state, id, todo_of(state.todos, id).after_revert());
        },
        Command::Activate { id } => {
            lemma_with_todo(state, id, todo_of(state.todos, id).after_activate());
        },
        Command::Deactivate { id, note, duration, now } => {
            lemma_deactivate(state, id, note, duration, now);
        },
        Command::Edit { id, project, task, task_priority } => {
            lemma_with_todo(
                state,
                id,
                todo_of(state.todos, id).after_edit(project, task, task_priority),
            );
        },
        Command::Delete { id } => {
            lemma_delete(state, id);
        },
        Command::DeleteProgress { id } => {
            lemma_delete_progress(state, id);
        },
    }
}

/// Whatever commands a tracker is given from its empty state, in whatever
/// order: afterwards every todo is completed exactly when it has a time of
/// completion, none is active and completed at once, and the cumulative time
/// of each is the sum of the durations of the notes that are about it.
pub proof fn lemma_invariant_after_any_commands(commands: Seq<Command>)
    ensures
        TrackerView::empty().run(commands).wf(),
        forall|i: int|
            #![trigger TrackerView::empty().run(commands).todos[i]]
            0 <= i < TrackerView::empty().run(commands).todos.len() ==> {
                let state = TrackerView::empty().run(commands);
                &&& state.todos[i].completed <==> state.todos[i].completed_at is Some
                &&& !(state.todos[i].completed && state.todos[i].is_active)
                &&& state.todos[i].total_time == logged(state.notes, state.todos[i].todo_id)
            },
{
    lemma_run_keeps_invariant(TrackerView::empty(), commands);
    let state = TrackerView::empty().run(commands);
    assert forall|i: int| 0 <= i < state.todos.len() implies {
        &&& (#[trigger] state.todos[i]).completed <==> state.todos[i].completed_at is Some
        &&& !(state.todos[i].completed && state.todos[i].is_active)
        &&& state.todos[i].total_time == logged(state.notes, state.todos[i].todo_id)
    } by {
        assert(state.todos[i].wf());
    }
}

/// Commands lead from a valid state to a valid state.
pub proof fn lemma_run_keeps_invariant(state: TrackerView, commands: Seq<Command>)
    requires
        state.wf(),
    ensures
        state.run(commands).wf(),
    decreases commands.len(),
{
    if commands.len() > 0 {
        lemma_run_keeps_invariant(state, commands.drop_last());
        let before = state.run(commands.drop_last());
        if before.apply(commands.last()) is Ok {
            lemma_apply(before, commands.last());
        }
    }
}

} // verus!
