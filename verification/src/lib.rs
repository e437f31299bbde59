//! Todo tracking with time accounting.
//!
//! A todo moves between pending, active and completed. Deactivating a todo
//! records a progress note whose duration is added to the todo's cumulative
//! time; deleting a note takes its duration off again. The [`Tracker`] keeps
//! both relations consistent, and the functions in [`handlers`] apply one
//! command each to it.

pub mod commands;
pub mod date;
pub mod error;
pub mod handlers;
pub mod log;
pub mod model;
pub mod order;
pub mod parse;
pub mod records;
pub mod store;
pub mod templates;
pub mod tracker;

pub use commands::{ActiveTodo, AddTodo, DeletedProgress, EditTodo, TodoId};
pub use date::{Date, Timestamp};
pub use error::{AppError, Failure, Field};
pub use log::ProgressLog;
pub use records::{CompletedTodo, PendingTodo, Progress, ProgressNote, Todo, TotalTime};
pub use store::TodoStore;
pub use tracker::Tracker;
