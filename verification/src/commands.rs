//! The field sets of the commands. Every field arrives as text.

use vstd::prelude::*;

verus! {

/// The fields of a new todo.
#[derive(Clone, Debug, PartialEq, Eq)]
pub struct AddTodo {
    pub project: String,
    pub task: String,
    pub priority: String,
}

/// The fields of an edited todo.
#[derive(Clone, Debug, PartialEq, Eq)]
pub struct EditTodo {
    pub id: String,
    pub project: String,
    pub task: String,
    pub priority: String,
}

/// The identifier of the todo that a command is about.
#[derive(Clone, Debug, PartialEq, Eq)]
pub struct TodoId {
    pub id: String,
}

/// The fields that end the activity of a todo.
#[derive(Clone, Debug, PartialEq, Eq)]
pub struct ActiveTodo {
    pub id: String,
    pub note: String,
    pub duration: String,
}

/// The fields that delete a progress note. Duration and todo are sent along
/// with the identifier of the note; what the log has stored decides.
#[derive(Clone, Debug, PartialEq, Eq)]
pub struct DeletedProgress {
    pub id: String,
    pub time_spent: String,
    pub todo_id: String,
}

} // verus!
