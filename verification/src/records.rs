//! The records that the store and the progress log keep, and the steps a
//! todo takes through its lifecycle.

use crate::date::Timestamp;
use vstd::prelude::*;

verus! {

/// A unit of work, as the store keeps it.
#[derive(Clone, Debug, PartialEq, Eq)]
pub struct Todo {
    pub todo_id: i32,
    pub project: String,
    pub task: String,
    pub task_priority: i32,
    pub completed: bool,
    pub is_active: bool,
    pub created_at: Timestamp,
    pub completed_at: Option<Timestamp>,
    pub total_time: i32,
}

/// What is shown of a todo that is not completed.
#[derive(Clone, Debug, PartialEq, Eq)]
pub struct PendingTodo {
    pub todo_id: i32,
    pub project: String,
    pub task: String,
    pub task_priority: i32,
    pub created_at: Timestamp,
    pub total_time: i32,
}

/// What is shown of a completed todo.
#[derive(Clone, Debug, PartialEq, Eq)]
pub struct CompletedTodo {
    pub todo_id: i32,
    pub project: String,
    pub task: String,
    pub task_priority: i32,
    pub completed_at: Option<Timestamp>,
    pub total_time: i32,
}

/// A note on time spent on one todo, as the progress log keeps it.
#[derive(Clone, Debug, PartialEq, Eq)]
pub struct Progress {
    pub progress_id: i32,
    pub todo_id: i32,
    pub note: String,
    pub made_at: Timestamp,
    pub time_spent: i32,
}

/// What is shown of a progress note under its todo.
#[derive(Clone, Debug, PartialEq, Eq)]
pub struct ProgressNote {
    pub progress_id: i32,
    pub note: String,
    pub time_spent: i32,
    pub made_at: Timestamp,
}

/// The cumulative time of one todo.
#[derive(Clone, Copy, Debug, PartialEq, Eq)]
pub struct TotalTime {
    pub total_time: i32,
}

impl Todo {
    /// The invariants of a todo: it is completed exactly when it has a time of
    /// completion, it is never active and completed at once, and its
    /// cumulative time is not negative.
    pub open spec fn wf(self) -> bool {
        &&& self.completed <==> self.completed_at is Some
        &&& !(self.completed && self.is_active)
        &&& self.total_time >= 0
    }

    /// A new todo: pending, with no time spent.
    pub open spec fn fresh(
        todo_id: i32,
        project: String,
        task: String,
        task_priority: i32,
        now: Timestamp,
    ) -> Todo {
        Todo {
            todo_id,
            project,
            task,
            task_priority,
            completed: false,
            is_active: false,
            created_at: now,
            completed_at: None,
            total_time: 0,
        }
    }

    /// The todo once completed at `now`. Completion ends activity.
    pub open spec fn after_complete(self, now: Timestamp) -> Todo {
        Todo { completed: true, is_active: false, completed_at: Some(now), ..self }
    }

    /// The todo once its completion is taken back.
    pub open spec fn after_revert(self) -> Todo {
        Todo { completed: false, completed_at: None, ..self }
    }

    /// The todo once activated. An active todo is not completed.
    pub open spec fn after_activate(self) -> Todo {
        Todo { is_active: true, completed: false, completed_at: None, ..self }
    }

    /// The todo once deactivated with `duration` more spent on it.
    pub open spec fn after_deactivate(self, duration: i32) -> Todo {
        Todo { is_active: false, total_time: (self.total_time + duration) as i32, ..self }
    }

    /// The todo with a new project, task and priority.
    pub open spec fn after_edit(self, project: String, task: String, task_priority: i32) -> Todo {
        Todo { project, task, task_priority, ..self }
    }

    /// The todo once a progress note of `duration` is taken off it.
    pub open spec fn after_removal(self, duration: i32) -> Todo {
        Todo { total_time: (self.total_time - duration) as i32, ..self }
    }

    /// What the pending list shows of the todo.
    pub open spec fn pending(self) -> PendingTodo {
        PendingTodo {
            todo_id: self.todo_id,
            project: self.project,
            task: self.task,
            task_priority: self.task_priority,
            created_at: self.created_at,
            total_time: self.total_time,
        }
    }

    /// What the completed list shows of the todo.
    pub open spec fn finished(self) -> CompletedTodo {
        CompletedTodo {
            todo_id: self.todo_id,
            project: self.project,
            task: self.task,
            task_priority: self.task_priority,
            completed_at: self.completed_at,
            total_time: self.total_time,
        }
    }

    /// Tests the invariants of the todo.
    pub fn is_valid(&self) -> (valid: bool)
        ensures
            valid == self.wf(),
    {
        self.completed == self.completed_at.is_some() && !(self.completed && self.is_active)
            && self.total_time >= 0
    }

    /// Makes a todo in its first state: pending, with no time spent.
    pub fn new(todo_id: i32, project: String, task: String, task_priority: i32, now: Timestamp) -> (t:
        Todo)
        ensures
            t == Todo::fresh(todo_id, project, task, task_priority, now),
            t.wf(),
    {
        Todo {
            todo_id,
            project,
            task,
            task_priority,
            completed: false,
            is_active: false,
            created_at: now,
            completed_at: None,
            total_time: 0,
        }
    }

    /// Marks the todo completed at `now`, whatever state it was in.
    pub fn complete(&mut self, now: Timestamp)
        ensures
            *final(self) == old(self).after_complete(now),
            old(self).wf() ==> final(self).wf(),
    {
        self.completed = true;
        self.is_active = false;
        self.completed_at = Some(now);
    }

    /// Takes a completion back: the todo is pending again, or still active.
    pub fn revert(&mut self)
        ensures
            *final(self) == old(self).after_revert(),
            old(self).wf() ==> final(self).wf(),
    {
        self.completed = false;
        self.completed_at = None;
    }

    /// Marks the todo active. Doing so twice changes nothing more.
    pub fn activate(&mut self)
        ensures
            *final(self) == old(self).after_activate(),
            old(self).wf() ==> final(self).wf(),
    {
        self.is_active = true;
        self.completed = false;
        self.completed_at = None;
    }

    /// Ends activity, if there was any, and adds `duration` to the
    /// cumulative time.
    pub fn deactivate(&mut self, duration: i32)
        requires
            0 <= duration,
            old(self).total_time + duration <= i32::MAX,
        ensures
            *final(self) == old(self).after_deactivate(duration),
            final(self).total_time == old(self).total_time + duration,
            old(self).wf() ==> final(self).wf(),
    {
        self.is_active = false;
        self.total_time = self.total_time + duration;
    }

    /// Overwrites project, task and priority; identity, state, times stay.
    pub fn edit(&mut self, project: String, task: String, task_priority: i32)
        ensures
            *final(self) == old(self).after_edit(project, task, task_priority),
            old(self).wf() ==> final(self).wf(),
    {
        self.project = project;
        self.task = task;
        self.task_priority = task_priority;
    }

    /// Takes `duration` off the cumulative time, for a progress note that is
    /// deleted.
    pub fn remove_time(&mut self, duration: i32)
        requires
            0 <= duration <= old(self).total_time,
        ensures
            *final(self) == old(self).after_removal(duration),
            final(self).total_time == old(self).total_time - duration,
            old(self).wf() ==> final(self).wf(),
    {
        self.total_time = self.total_time - duration;
    }

    /// A copy of the todo.
    pub fn duplicate(&self) -> (t: Todo)
        ensures
            t == *self,
    {
        Todo {
            todo_id: self.todo_id,
            project: self.project.clone(),
            task: self.task.clone(),
            task_priority: self.task_priority,
            completed: self.completed,
            is_active: self.is_active,
            created_at: self.created_at,
            completed_at: self.completed_at,
            total_time: self.total_time,
        }
    }

    /// The todo as the pending list shows it.
    pub fn to_pending(&self) -> (p: PendingTodo)
        ensures
            p == self.pending(),
    {
        PendingTodo {
            todo_id: self.todo_id,
            project: self.project.clone(),
            task: self.task.clone(),
            task_priority: self.task_priority,
            created_at: self.created_at,
            total_time: self.total_time,
        }
    }

    /// The todo as the completed list shows it.
    pub fn to_completed(&self) -> (c: CompletedTodo)
        ensures
            c == self.finished(),
    {
        CompletedTodo {
            todo_id: self.todo_id,
            project: self.project.clone(),
            task: self.task.clone(),
            task_priority: self.task_priority,
            completed_at: self.completed_at,
            total_time: self.total_time,
        }
    }
}

impl PendingTodo {
    /// A copy of the record.
    pub fn duplicate(&self) -> (p: PendingTodo)
        ensures
            p == *self,
    {
        PendingTodo {
            todo_id: self.todo_id,
            project: self.project.clone(),
            task: self.task.clone(),
            task_priority: self.task_priority,
            created_at: self.created_at,
            total_time: self.total_time,
        }
    }
}

impl CompletedTodo {
    /// A copy of the record.
    pub fn duplicate(&self) -> (c: CompletedTodo)
        ensures
            c == *self,
    {
        CompletedTodo {
            todo_id: self.todo_id,
            project: self.project.clone(),
            task: self.task.clone(),
            task_priority: self.task_priority,
            completed_at: self.completed_at,
            total_time: self.total_time,
        }
    }
}

impl ProgressNote {
    /// A copy of the record.
    pub fn duplicate(&self) -> (n: ProgressNote)
        ensures
            n == *self,
    {
        ProgressNote {
            progress_id: self.progress_id,
            note: self.note.clone(),
            time_spent: self.time_spent,
            made_at: self.made_at,
        }
    }
}

impl Progress {
    /// What is shown of the note under its todo.
    pub open spec fn shown(self) -> ProgressNote {
        ProgressNote {
            progress_id: self.progress_id,
            note: self.note,
            time_spent: self.time_spent,
            made_at: self.made_at,
        }
    }

    /// A copy of the note.
    pub fn duplicate(&self) -> (p: Progress)
        ensures
            p == *self,
    {
        Progress {
            progress_id: self.progress_id,
            todo_id: self.todo_id,
            note: self.note.clone(),
            made_at: self.made_at,
            time_spent: self.time_spent,
        }
    }

    /// The note as it is shown under its todo.
    pub fn to_note(&self) -> (n: ProgressNote)
        ensures
            n == self.shown(),
    {
        ProgressNote {
            progress_id: self.progress_id,
            note: self.note.clone(),
            time_spent: self.time_spent,
            made_at: self.made_at,
        }
    }
}

} // verus!
