//! One function for each command: it validates the fields, applies the
//! command to the tracker, and hands back what is to be shown.

use crate::commands::{ActiveTodo, AddTodo, DeletedProgress, EditTodo, TodoId};
use crate::date::{Date, Timestamp};
use crate::error::{AppError, Failure, Field};
use crate::log::{is_progress_list, note_of};
use crate::model::TrackerView;
use crate::parse::{parse_i32, parse_i32_spec};
use crate::records::{Progress, ProgressNote, Todo};
use crate::store::{
    has_todo, is_completed_list, is_pending_list, lemma_has_todo, shows_completed, todo_of,
};
use crate::templates::{
    ActiveTodoTemplate, CompletedTodoTemplate, DeactivateTodoTemplate, DeleteProgressTemplate,
    EditFormTemplate, HideProgressTemplate, HomeTemplate, LoginTemplate, PendingTodoTemplate,
    ProgressNoteTemplate, ProgressTemplate, RevertTodoTemplate,
};
use crate::tracker::Tracker;
use vstd::prelude::*;

verus! {

/// The number that the text of `field` denotes, or the failure to denote one.
pub open spec fn number(text: Seq<char>, field: Field) -> Result<i32, AppError> {
    match parse_i32_spec(text) {
        Some(value) => Ok(value),
        None => Err(AppError(Failure::Validation(field))),
    }
}

/// Reads the number in the text of `field`.
pub fn read_number(text: &str, field: Field) -> (r: Result<i32, AppError>)
    ensures
        r == number(text@, field),
{
    match parse_i32(text) {
        Some(value) => Ok(value),
        None => Err(AppError::invalid(field)),
    }
}

/// What is asked of the fields of a new todo: a project and a task that are
/// not empty, and a priority that is a number. The first field that fails
/// is reported; where none does, the priority is the result.
pub open spec fn add_request(payload: AddTodo) -> Result<i32, AppError> {
    if payload.project@.len() == 0 {
        Err(AppError(Failure::Validation(Field::Project)))
    } else if payload.task@.len() == 0 {
        Err(AppError(Failure::Validation(Field::Task)))
    } else {
        number(payload.priority@, Field::Priority)
    }
}

/// What is asked of the fields of an edited todo: an identifier that is a
/// number, a project and a task that are not empty, and a priority that is
/// a number. The first field that fails is reported; where none does,
/// identifier and priority are the result.
pub open spec fn edit_request(data: EditTodo) -> Result<(i32, i32), AppError> {
    match number(data.id@, Field::Id) {
        Err(e) => Err(e),
        Ok(id) => if data.project@.len() == 0 {
            Err(AppError(Failure::Validation(Field::Project)))
        } else if data.task@.len() == 0 {
            Err(AppError(Failure::Validation(Field::Task)))
        } else {
            match number(data.priority@, Field::Priority) {
                Err(e) => Err(e),
                Ok(priority) => Ok((id, priority)),
            }
        },
    }
}

/// What is asked of the fields that end the activity of a todo: an
/// identifier that is a number, and a duration that is a number and not
/// negative. The first field that fails is reported; where none does,
/// identifier and duration are the result.
pub open spec fn deactivate_request(data: ActiveTodo) -> Result<(i32, i32), AppError> {
    match number(data.id@, Field::Id) {
        Err(e) => Err(e),
        Ok(id) => match number(data.duration@, Field::Duration) {
            Err(e) => Err(e),
            Ok(duration) => if duration < 0 {
                Err(AppError(Failure::Validation(Field::Duration)))
            } else {
                Ok((id, duration))
            },
        },
    }
}

/// What is asked of the fields that delete a progress note: the identifier
/// of the note, the duration and the identifier of the todo are numbers. The
/// first field that fails is reported; where none does, the identifier of
/// the note is the result. The other two numbers decide nothing.
pub open spec fn delete_progress_request(data: DeletedProgress) -> Result<i32, AppError> {
    match number(data.id@, Field::Id) {
        Err(e) => Err(e),
        Ok(id) => match number(data.time_spent@, Field::TimeSpent) {
            Err(e) => Err(e),
            Ok(_) => match number(data.todo_id@, Field::TodoId) {
                Err(e) => Err(e),
                Ok(_) => Ok(id),
            },
        },
    }
}

/// The login page. Nobody is asked who they are.
pub fn login() -> (r: Result<LoginTemplate, AppError>)
    ensures
        r == Ok::<LoginTemplate, AppError>(LoginTemplate {  }),
{
    Ok(LoginTemplate {  })
}

/// Create: validates the fields and adds a pending todo, created at `now`.
pub fn add_todo(tracker: &mut Tracker, payload: AddTodo, now: Timestamp) -> (r: Result<
    PendingTodoTemplate,
    AppError,
>)
    requires
        old(tracker).wf(),
    ensures
        final(tracker).wf(),
        match add_request(payload) {
            Err(e) => r == Err::<PendingTodoTemplate, AppError>(e) && final(tracker)@ == old(
                tracker,
            )@,
            Ok(priority) => match r {
                Ok(shown) => {
                    &&& old(tracker)@.create(payload.project, payload.task, priority, now) == Ok::<
                        TrackerView,
                        AppError,
                    >(final(tracker)@)
                    &&& shown == PendingTodoTemplate::of(final(tracker)@.todos.last().pending())
                    &&& shown.todo.todo_id == old(tracker)@.next_todo_id
                    &&& shown.todo.task_priority == priority
                    &&& shown.todo.total_time == 0
                    &&& shown.date == Date::of(now)
                },
                Err(e) => {
                    &&& old(tracker)@.create(payload.project, payload.task, priority, now) == Err::<
                        TrackerView,
                        AppError,
                    >(e)
                    &&& final(tracker)@ == old(tracker)@
                },
            },
        },
{
    if payload.project.as_str().is_empty() {
        return Err(AppError::invalid(Field::Project));
    }
    if payload.task.as_str().is_empty() {
        return Err(AppError::invalid(Field::Task));
    }
    let priority = match read_number(payload.priority.as_str(), Field::Priority) {
        Ok(priority) => priority,
        Err(e) => {
            return Err(e);
        },
    };
    match tracker.create(payload.project, payload.task, priority, now) {
        Ok(todo) => Ok(PendingTodoTemplate::new(todo.to_pending())),
        Err(e) => Err(e),
    }
}

/// Complete: marks the todo completed at `now`.
pub fn complete_todo(tracker: &mut Tracker, data: TodoId, now: Timestamp) -> (r: Result<
    CompletedTodoTemplate,
    AppError,
>)
    requires
        old(tracker).wf(),
    ensures
        final(tracker).wf(),
        match number(data.id@, Field::Id) {
            Err(e) => r == Err::<CompletedTodoTemplate, AppError>(e) && final(tracker)@ == old(
                tracker,
            )@,
            Ok(id) => match r {
                Ok(shown) => {
                    &&& old(tracker)@.complete(id, now) == Ok::<TrackerView, AppError>(
                        final(tracker)@,
                    )
                    &&& shown == CompletedTodoTemplate::of(
                        todo_of(final(tracker)@.todos, id).finished(),
                    )
                    &&& shown.todo.completed_at == Some(now)
                    &&& shown.date == Date::of(now)
                },
                Err(e) => {
                    &&& old(tracker)@.complete(id, now) == Err::<TrackerView, AppError>(e)
                    &&& final(tracker)@ == old(tracker)@
                },
            },
        },
{
    let id = match read_number(data.id.as_str(), Field::Id) {
        Ok(id) => id,
        Err(e) => {
            return Err(e);
        },
    };
    match tracker.complete(id, now) {
        Ok(todo) => Ok(CompletedTodoTemplate::new(todo.to_completed())),
        Err(e) => Err(e),
    }
}

/// The todo whose progress notes are to be folded away.
pub fn hide_progress(data: TodoId) -> (r: Result<HideProgressTemplate, AppError>)
    ensures
        match number(data.id@, Field::Id) {
            Err(e) => r == Err::<HideProgressTemplate, AppError>(e),
            Ok(id) => r == Ok::<HideProgressTemplate, AppError>(
                HideProgressTemplate { todo_id: id },
            ),
        },
{
    match read_number(data.id.as_str(), Field::Id) {
        Ok(id) => Ok(HideProgressTemplate { todo_id: id }),
        Err(e) => Err(e),
    }
}

/// Whether `shown` is the pending list of `todos`, each todo under the date
/// of its creation.
pub open spec fn is_pending_view(todos: Seq<Todo>, shown: Seq<PendingTodoTemplate>) -> bool {
    &&& is_pending_list(todos, Seq::new(shown.len(), |k: int| shown[k].todo))
    &&& forall|k: int|
        0 <= k < shown.len() ==> (#[trigger] shown[k]) == PendingTodoTemplate::of(shown[k].todo)
}

/// Whether `shown` is the completed list of `todos`, each todo under the
/// date of its completion.
pub open spec fn is_completed_view(
    todos: Seq<Todo>,
    shown: Seq<CompletedTodoTemplate>,
) -> bool {
    &&& is_completed_list(todos, Seq::new(shown.len(), |k: int| shown[k].todo))
    &&& forall|k: int|
        0 <= k < shown.len() ==> (#[trigger] shown[k]) == CompletedTodoTemplate::of(shown[k].todo)
}

/// Whether `shown` is the progress list of the todo `todo_id`, each note
/// under the date on which it was made.
pub open spec fn is_progress_view(
    notes: Seq<Progress>,
    todo_id: i32,
    shown: Seq<ProgressNoteTemplate>,
) -> bool {
    exists|list: Seq<ProgressNote>|
        {
            &&& #[trigger] is_progress_list(notes, todo_id, list)
            &&& shown.len() == list.len()
            &&& forall|k: int|
                0 <= k < list.len() ==> (#[trigger] shown[k]) == ProgressNoteTemplate::of(
                    list[k],
                    todo_id,
                )
        }
}

/// The home page: the pending list and the completed list, each todo with
/// its date. Nothing changes.
pub fn home(tracker: &Tracker) -> (r: Result<HomeTemplate, AppError>)
    requires
        tracker.wf(),
    ensures
        r is Ok,
        is_pending_view(tracker@.todos, r->Ok_0.pending@),
        is_completed_view(tracker@.todos, r->Ok_0.completed@),
{
    let pending_todos = tracker.list_pending();
    let mut pending: Vec<PendingTodoTemplate> = Vec::new();
    let mut i: usize = 0;
    while i < pending_todos.len()
        invariant
            i <= pending_todos.len(),
            pending.len() == i,
            forall|k: int|
                0 <= k < i ==> (#[trigger] pending[k]) == PendingTodoTemplate::of(pending_todos[k]),
        decreases pending_todos.len() - i,
    {
        pending.push(PendingTodoTemplate::new(pending_todos[i].duplicate()));
        i = i + 1;
    }
    let completed_todos = tracker.list_completed();
    let mut completed: Vec<CompletedTodoTemplate> = Vec::new();
    let mut j: usize = 0;
    while j < completed_todos.len()
        invariant
            tracker.wf(),
            is_completed_list(tracker@.todos, completed_todos@),
            j <= completed_todos.len(),
            completed.len() == j,
            forall|k: int|
                0 <= k < j ==> (#[trigger] completed[k]) == CompletedTodoTemplate::of(
                    completed_todos[k],
                ),
        decreases completed_todos.len() - j,
    {
        proof {
            let todos = tracker@.todos;
            assert(shows_completed(todos, completed_todos@[j as int]));
            let at = choose|at: int|
                0 <= at < todos.len() && (#[trigger] todos[at]).completed && todos[at].finished()
                    == completed_todos@[j as int];
            assert(todos[at].wf());
        }
        completed.push(CompletedTodoTemplate::new(completed_todos[j].duplicate()));
        j = j + 1;
    }
    proof {
        assert(Seq::new(pending@.len(), |k: int| pending@[k].todo) =~= pending_todos@);
        assert(Seq::new(completed@.len(), |k: int| completed@[k].todo) =~= completed_todos@);
    }
    Ok(HomeTemplate { pending, completed })
}

/// The form for the todo `id`, filled with what the store has of it.
pub fn edit_form(tracker: &Tracker, data: TodoId) -> (r: Result<EditFormTemplate, AppError>)
    requires
        tracker.wf(),
    ensures
        match number(data.id@, Field::Id) {
            Err(e) => r == Err::<EditFormTemplate, AppError>(e),
            Ok(id) => if has_todo(tracker@.todos, id) {
                let todo = todo_of(tracker@.todos, id);
                r == Ok::<EditFormTemplate, AppError>(
                    EditFormTemplate {
                        todo_id: id,
                        project: todo.project,
                        task: todo.task,
                        task_priority: todo.task_priority,
                    },
                )
            } else {
                r == Err::<EditFormTemplate, AppError>(AppError(Failure::NotFound))
            },
        },
{
    let id = match read_number(data.id.as_str(), Field::Id) {
        Ok(id) => id,
        Err(e) => {
            return Err(e);
        },
    };
    match tracker.get(id) {
        Ok(todo) => {
            proof {
                lemma_has_todo(tracker@.todos, id);
            }
            Ok(
                EditFormTemplate {
                    todo_id: todo.todo_id,
                    project: todo.project,
                    task: todo.task,
                    task_priority: todo.task_priority,
                },
            )
        },
        Err(e) => Err(e),
    }
}

/// Edit: validates the fields and overwrites project, task and priority of
/// the todo.
pub fn edit_todo(tracker: &mut Tracker, data: EditTodo) -> (r: Result<PendingTodoTemplate, AppError>)
    requires
        old(tracker).wf(),
    ensures
        final(tracker).wf(),
        match edit_request(data) {
            Err(e) => r == Err::<PendingTodoTemplate, AppError>(e) && final(tracker)@ == old(
                tracker,
            )@,
            Ok((id, priority)) => match r {
                Ok(shown) => {
                    &&& old(tracker)@.edit(id, data.project, data.task, priority) == Ok::<
                        TrackerView,
                        AppError,
                    >(final(tracker)@)
                    &&& shown == PendingTodoTemplate::of(
                        todo_of(final(tracker)@.todos, id).pending(),
                    )
                    &&& shown.todo.task_priority == priority
                },
                Err(e) => {
                    &&& old(tracker)@.edit(id, data.project, data.task, priority) == Err::<
                        TrackerView,
                        AppError,
                    >(e)
                    &&& final(tracker)@ == old(tracker)@
                },
            },
        },
{
    let id = match read_number(data.id.as_str(), Field::Id) {
        Ok(id) => id,
        Err(e) => {
            return Err(e);
        },
    };
    if data.project.as_str().is_empty() {
        return Err(AppError::invalid(Field::Project));
    }
    if data.task.as_str().is_empty() {
        return Err(AppError::invalid(Field::Task));
    }
    let priority = match read_number(data.priority.as_str(), Field::Priority) {
        Ok(priority) => priority,
        Err(e) => {
            return Err(e);
        },
    };
    match tracker.edit(id, data.project, data.task, priority) {
        Ok(todo) => Ok(PendingTodoTemplate::new(todo.to_pending())),
        Err(e) => Err(e),
    }
}

/// Delete: removes the todo and its notes. There is nothing to show.
pub fn delete_todo(tracker: &mut Tracker, data: TodoId) -> (r: Result<&'static str, AppError>)
    requires
        old(tracker).wf(),
    ensures
        final(tracker).wf(),
        match number(data.id@, Field::Id) {
            Err(e) => r == Err::<&'static str, AppError>(e) && final(tracker)@ == old(tracker)@,
            Ok(id) => match r {
                Ok(body) => {
                    &&& old(tracker)@.delete(id) == Ok::<TrackerView, AppError>(final(tracker)@)
                    &&& body@.len() == 0
                },
                Err(e) => {
                    &&& old(tracker)@.delete(id) == Err::<TrackerView, AppError>(e)
                    &&& final(tracker)@ == old(tracker)@
                },
            },
        },
{
    let id = match read_number(data.id.as_str(), Field::Id) {
        Ok(id) => id,
        Err(e) => {
            return Err(e);
        },
    };
    match tracker.delete(id) {
        Ok(_) => {
            proof {
                reveal_strlit("");
            }
            Ok("")
        },
        Err(e) => Err(e),
    }
}

/// Revert: takes the completion of the todo back, so that the pending list
/// has it again.
pub fn revert_todo(tracker: &mut Tracker, data: TodoId) -> (r: Result<RevertTodoTemplate, AppError>)
    requires
        old(tracker).wf(),
    ensures
        final(tracker).wf(),
        match number(data.id@, Field::Id) {
            Err(e) => r == Err::<RevertTodoTemplate, AppError>(e) && final(tracker)@ == old(
                tracker,
            )@,
            Ok(id) => match r {
                Ok(shown) => {
                    &&& old(tracker)@.revert(id) == Ok::<TrackerView, AppError>(final(tracker)@)
                    &&& shown.todo_id == id
                    &&& shown.todo == PendingTodoTemplate::of(
                        todo_of(final(tracker)@.todos, id).pending(),
                    )
                    &&& shown.todo.todo.total_time == todo_of(old(tracker)@.todos, id).total_time
                },
                Err(e) => {
                    &&& old(tracker)@.revert(id) == Err::<TrackerView, AppError>(e)
                    &&& final(tracker)@ == old(tracker)@
                },
            },
        },
{
    let id = match read_number(data.id.as_str(), Field::Id) {
        Ok(id) => id,
        Err(e) => {
            return Err(e);
        },
    };
    match tracker.revert(id) {
        Ok(todo) => Ok(
            RevertTodoTemplate { todo_id: id, todo: PendingTodoTemplate::new(todo.to_pending()) },
        ),
        Err(e) => Err(e),
    }
}

/// Activate: marks the todo active.
pub fn activate_todo(tracker: &mut Tracker, data: TodoId) -> (r: Result<ActiveTodoTemplate, AppError>)
    requires
        old(tracker).wf(),
    ensures
        final(tracker).wf(),
        match number(data.id@, Field::Id) {
            Err(e) => r == Err::<ActiveTodoTemplate, AppError>(e) && final(tracker)@ == old(
                tracker,
            )@,
            Ok(id) => match r {
                Ok(shown) => {
                    &&& old(tracker)@.activate(id) == Ok::<TrackerView, AppError>(final(tracker)@)
                    &&& todo_of(final(tracker)@.todos, id).is_active
                    &&& shown == (ActiveTodoTemplate {
                        todo_id: id,
                        project: todo_of(final(tracker)@.todos, id).project,
                        task: todo_of(final(tracker)@.todos, id).task,
                        task_priority: todo_of(final(tracker)@.todos, id).task_priority,
                    })
                },
                Err(e) => {
                    &&& old(tracker)@.activate(id) == Err::<TrackerView, AppError>(e)
                    &&& final(tracker)@ == old(tracker)@
                },
            },
        },
{
    let id = match read_number(data.id.as_str(), Field::Id) {
        Ok(id) => id,
        Err(e) => {
            return Err(e);
        },
    };
    match tracker.activate(id) {
        Ok(todo) => {
            proof {
                lemma_has_todo(old(tracker)@.todos, id);
            }
            Ok(
                ActiveTodoTemplate {
                    todo_id: todo.todo_id,
                    project: todo.project,
                    task: todo.task,
                    task_priority: todo.task_priority,
                },
            )
        },
        Err(e) => Err(e),
    }
}

/// Deactivate: validates the fields, then in one step makes a note of the
/// duration at `now`, ends the activity of the todo and adds the duration to
/// its cumulative time.
pub fn deactivate_todo(tracker: &mut Tracker, data: ActiveTodo, now: Timestamp) -> (r: Result<
    DeactivateTodoTemplate,
    AppError,
>)
    requires
        old(tracker).wf(),
    ensures
        final(tracker).wf(),
        match deactivate_request(data) {
            Err(e) => r == Err::<DeactivateTodoTemplate, AppError>(e) && final(tracker)@ == old(
                tracker,
            )@,
            Ok((id, duration)) => match r {
                Ok(shown) => {
                    &&& old(tracker)@.deactivate(id, data.note, duration, now) == Ok::<
                        TrackerView,
                        AppError,
                    >(final(tracker)@)
                    &&& shown.todo_id == id
                    &&& shown.todo == PendingTodoTemplate::of(
                        todo_of(final(tracker)@.todos, id).pending(),
                    )
                    &&& shown.todo.todo.total_time == todo_of(old(tracker)@.todos, id).total_time
                        + duration
                },
                Err(e) => {
                    &&& old(tracker)@.deactivate(id, data.note, duration, now) == Err::<
                        TrackerView,
                        AppError,
                    >(e)
                    &&& final(tracker)@ == old(tracker)@
                },
            },
        },
{
    let id = match read_number(data.id.as_str(), Field::Id) {
        Ok(id) => id,
        Err(e) => {
            return Err(e);
        },
    };
    let duration = match read_number(data.duration.as_str(), Field::Duration) {
        Ok(duration) => duration,
        Err(e) => {
            return Err(e);
        },
    };
    if duration < 0 {
        return Err(AppError::invalid(Field::Duration));
    }
    match tracker.deactivate(id, data.note, duration, now) {
        Ok((todo, _)) => Ok(
            DeactivateTodoTemplate {
                todo_id: id,
                todo: PendingTodoTemplate::new(todo.to_pending()),
            },
        ),
        Err(e) => Err(e),
    }
}

/// The progress notes of the todo, from the earliest to the latest, each
/// with its date. Nothing changes.
pub fn show_progress(tracker: &Tracker, data: TodoId) -> (r: Result<ProgressTemplate, AppError>)
    requires
        tracker.wf(),
    ensures
        match number(data.id@, Field::Id) {
            Err(e) => r == Err::<ProgressTemplate, AppError>(e),
            Ok(id) => {
                &&& r is Ok
                &&& r->Ok_0.todo_id == id
                &&& is_progress_view(tracker@.notes, id, r->Ok_0.progress@)
            },
        },
{
    let todo_id = match read_number(data.id.as_str(), Field::Id) {
        Ok(id) => id,
        Err(e) => {
            return Err(e);
        },
    };
    let notes = tracker.progress_for(todo_id);
    let mut progress: Vec<ProgressNoteTemplate> = Vec::new();
    let mut i: usize = 0;
    while i < notes.len()
        invariant
            i <= notes.len(),
            progress.len() == i,
            forall|k: int|
                0 <= k < i ==> (#[trigger] progress[k]) == ProgressNoteTemplate::of(
                    notes[k],
                    todo_id,
                ),
        decreases notes.len() - i,
    {
        progress.push(ProgressNoteTemplate::new(notes[i].duplicate(), todo_id));
        i = i + 1;
    }
    assert(is_progress_list(tracker@.notes, todo_id, notes@));
    Ok(ProgressTemplate { todo_id, progress })
}

/// Delete a progress note: validates the fields, then in one step removes
/// the note and takes the duration that the log has stored for it off the
/// cumulative time of its todo. The duration and the todo that the fields
/// name decide nothing.
pub fn delete_progress(tracker: &mut Tracker, data: DeletedProgress) -> (r: Result<
    DeleteProgressTemplate,
    AppError,
>)
    requires
        old(tracker).wf(),
    ensures
        final(tracker).wf(),
        match delete_progress_request(data) {
            Err(e) => r == Err::<DeleteProgressTemplate, AppError>(e) && final(tracker)@ == old(
                tracker,
            )@,
            Ok(id) => match r {
                Ok(shown) => {
                    let removed = note_of(old(tracker)@.notes, id);
                    &&& old(tracker)@.delete_progress(id) == Ok::<TrackerView, AppError>(
                        final(tracker)@,
                    )
                    &&& shown.todo_id == removed.todo_id
                    &&& shown.total_time == todo_of(final(tracker)@.todos, removed.todo_id).total_time
                    &&& shown.total_time == todo_of(old(tracker)@.todos, removed.todo_id).total_time
                        - removed.time_spent
                },
                Err(e) => {
                    &&& old(tracker)@.delete_progress(id) == Err::<TrackerView, AppError>(e)
                    &&& final(tracker)@ == old(tracker)@
                },
            },
        },
{
    let id = match read_number(data.id.as_str(), Field::Id) {
        Ok(id) => id,
        Err(e) => {
            return Err(e);
        },
    };
    match read_number(data.time_spent.as_str(), Field::TimeSpent) {
        Ok(_) => {},
        Err(e) => {
            return Err(e);
        },
    }
    match read_number(data.todo_id.as_str(), Field::TodoId) {
        Ok(_) => {},
        Err(e) => {
            return Err(e);
        },
    }
    match tracker.delete_progress(id) {
        Ok((removed, todo)) => Ok(
            DeleteProgressTemplate { todo_id: removed.todo_id, total_time: todo.total_time },
        ),
        Err(e) => Err(e),
    }
}

} // verus!
