//! Failures that a command can end in.

use vstd::prelude::*;

verus! {

/// The input field that a validation failure is about.
#[derive(Clone, Copy, Debug, PartialEq, Eq, Structural)]
pub enum Field {
    /// The identifier of a todo or of a progress note.
    Id,
    /// The project name of a todo.
    Project,
    /// The task description of a todo.
    Task,
    /// The priority of a todo.
    Priority,
    /// The duration given when a todo is deactivated.
    Duration,
    /// The duration that accompanies the deletion of a progress note.
    TimeSpent,
    /// The todo identifier that accompanies the deletion of a progress note.
    TodoId,
}

/// Why a command was not applied.
#[derive(Clone, Copy, Debug, PartialEq, Eq, Structural)]
pub enum Failure {
    /// A numeric field is not a number in range, or a required text is empty.
    Validation(Field),
    /// No todo, or no progress note, has the identifier that the command names.
    NotFound,
    /// The store cannot take the change: an identifier or a time counter would
    /// leave its range.
    StoreUnavailable,
}

/// The error of every command. A command that fails leaves the state as it was.
#[derive(Clone, Copy, Debug, PartialEq, Eq, Structural)]
pub struct AppError(pub Failure);

impl AppError {
    /// The error for a field that does not hold what it must.
    pub fn invalid(field: Field) -> (e: AppError)
        ensures
            e == AppError(Failure::Validation(field)),
    {
        AppError(Failure::Validation(field))
    }

    /// The error for an identifier that names nothing.
    pub fn not_found() -> (e: AppError)
        ensures
            e == AppError(Failure::NotFound),
    {
        AppError(Failure::NotFound)
    }

    /// The error for a change that the store cannot take.
    pub fn store_unavailable() -> (e: AppError)
        ensures
            e == AppError(Failure::StoreUnavailable),
    {
        AppError(Failure::StoreUnavailable)
    }
}

} // verus!
