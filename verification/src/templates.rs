//! What a command hands to the presentation: records, each with the
//! calendar date it is shown under.

use crate::date::Date;
use crate::records::{CompletedTodo, PendingTodo, ProgressNote};
use vstd::prelude::*;

verus! {

/// The login page. It shows nothing of the state.
#[derive(Clone, Copy, Debug, PartialEq, Eq)]
pub struct LoginTemplate {}

/// The home page: the pending list and the completed list.
#[derive(Clone, Debug, PartialEq, Eq)]
pub struct HomeTemplate {
    pub pending: Vec<PendingTodoTemplate>,
    pub completed: Vec<CompletedTodoTemplate>,
}

/// A todo that is not completed, with the date of its creation.
#[derive(Clone, Debug, PartialEq, Eq)]
pub struct PendingTodoTemplate {
    pub todo: PendingTodo,
    pub date: Date,
}

/// A completed todo, with the date of its completion.
#[derive(Clone, Debug, PartialEq, Eq)]
pub struct CompletedTodoTemplate {
    pub todo: CompletedTodo,
    pub date: Date,
}

/// The form in which a todo is edited.
#[derive(Clone, Debug, PartialEq, Eq)]
pub struct EditFormTemplate {
    pub todo_id: i32,
    pub project: String,
    pub task: String,
    pub task_priority: i32,
}

/// A todo whose completion was taken back.
#[derive(Clone, Debug, PartialEq, Eq)]
pub struct RevertTodoTemplate {
    pub todo_id: i32,
    pub todo: PendingTodoTemplate,
}

/// The completed list alone.
#[derive(Clone, Debug, PartialEq, Eq)]
pub struct CompletedTodosTemplate {
    pub completed: Vec<CompletedTodoTemplate>,
}

/// A todo that is being worked on.
#[derive(Clone, Debug, PartialEq, Eq)]
pub struct ActiveTodoTemplate {
    pub todo_id: i32,
    pub project: String,
    pub task: String,
    pub task_priority: i32,
}

/// A todo whose activity has ended.
#[derive(Clone, Debug, PartialEq, Eq)]
pub struct DeactivateTodoTemplate {
    pub todo_id: i32,
    pub todo: PendingTodoTemplate,
}

/// A progress note under its todo, with the date on which it was made.
#[derive(Clone, Debug, PartialEq, Eq)]
pub struct ProgressNoteTemplate {
    pub progress_id: i32,
    pub note: String,
    pub time_spent: i32,
    pub date: Date,
    pub todo_id: i32,
}

/// The progress notes of one todo.
#[derive(Clone, Debug, PartialEq, Eq)]
pub struct ProgressTemplate {
    pub todo_id: i32,
    pub progress: Vec<ProgressNoteTemplate>,
}

/// The todo whose progress notes are folded away.
#[derive(Clone, Copy, Debug, PartialEq, Eq)]
pub struct HideProgressTemplate {
    pub todo_id: i32,
}

/// The cumulative time of a todo after one of its notes was deleted.
#[derive(Clone, Copy, Debug, PartialEq, Eq)]
pub struct DeleteProgressTemplate {
    pub todo_id: i32,
    pub total_time: i32,
}

impl PendingTodoTemplate {
    /// What is shown of a pending todo: the todo, under the date of its
    /// creation.
    pub open spec fn of(todo: PendingTodo) -> PendingTodoTemplate {
        PendingTodoTemplate { todo, date: Date::of(todo.created_at) }
    }

    /// Puts a pending todo under the date of its creation.
    pub fn new(todo: PendingTodo) -> (shown: PendingTodoTemplate)
        ensures
            shown == PendingTodoTemplate::of(todo),
    {
        let date = Date::from(todo.created_at);
        PendingTodoTemplate { todo, date }
    }
}

impl CompletedTodoTemplate {
    /// What is shown of a completed todo: the todo, under the date of its
    /// completion.
    pub open spec fn of(todo: CompletedTodo) -> CompletedTodoTemplate {
        CompletedTodoTemplate { todo, date: Date::of(todo.completed_at->0) }
    }

    /// Puts a completed todo under the date of its completion.
    pub fn new(todo: CompletedTodo) -> (shown: CompletedTodoTemplate)
        requires
            todo.completed_at is Some,
        ensures
            shown == CompletedTodoTemplate::of(todo),
    {
        let date = match todo.completed_at {
            Some(at) => Date::from(at),
            None => vstd::pervasive::unreached(),
        };
        CompletedTodoTemplate { todo, date }
    }
}

impl ProgressNoteTemplate {
    /// What is shown of a note of the todo `todo_id`: its text and duration,
    /// under the date on which it was made.
    pub open spec fn of(note: ProgressNote, todo_id: i32) -> ProgressNoteTemplate {
        ProgressNoteTemplate {
            progress_id: note.progress_id,
            note: note.note,
            time_spent: note.time_spent,
            date: Date::of(note.made_at),
            todo_id,
        }
    }

    /// Puts a note of the todo `todo_id` under the date on which it was made.
    pub fn new(note: ProgressNote, todo_id: i32) -> (shown: ProgressNoteTemplate)
        ensures
            shown == ProgressNoteTemplate::of(note, todo_id),
    {
        let date = Date::from(note.made_at);
        ProgressNoteTemplate {
            progress_id: note.progress_id,
            note: note.note,
            time_spent: note.time_spent,
            date,
            todo_id,
        }
    }
}

} // verus!
