//! The todo store: the todos in the order in which they were created.

use crate::date::Timestamp;
use crate::error::{AppError, Failure, Field};
use crate::order::{comes_first, is_selection, lemma_sorted_unique, lists, select_in_order};
use crate::records::{CompletedTodo, PendingTodo, Todo};
use vstd::prelude::*;

verus! {

/// Whether the identifiers rise along `todos`, so that none occurs twice.
pub open spec fn ids_ascend(todos: Seq<Todo>) -> bool {
    forall|i: int, j: int|
        0 <= i < j < todos.len() ==> (#[trigger] todos[i]).todo_id < (#[trigger] todos[j]).todo_id
}

/// Whether a todo of `todos` has the identifier `id`.
pub open spec fn has_todo(todos: Seq<Todo>, id: i32) -> bool {
    exists|i: int| 0 <= i < todos.len() && (#[trigger] todos[i]).todo_id == id
}

/// Where in `todos` the todo with the identifier `id` stands, if there is one.
pub open spec fn place_of(todos: Seq<Todo>, id: i32) -> int {
    choose|i: int| 0 <= i < todos.len() && (#[trigger] todos[i]).todo_id == id
}

/// The todo of `todos` with the identifier `id`, if there is one.
pub open spec fn todo_of(todos: Seq<Todo>, id: i32) -> Todo {
    todos[place_of(todos, id)]
}

/// What holds of the todos of a store whose next identifier is `next_id`:
/// identifiers rise in the order of creation, from 1 on and below `next_id`,
/// and each todo is well formed.
pub open spec fn todos_valid(todos: Seq<Todo>, next_id: int) -> bool {
    &&& ids_ascend(todos)
    &&& forall|i: int|
        0 <= i < todos.len() ==> (#[trigger] todos[i]).wf() && 1 <= todos[i].todo_id < next_id
    &&& 1 <= next_id <= i32::MAX + 1
}

/// Where identifiers rise, a todo's identifier says where it stands.
pub proof fn lemma_place_of(todos: Seq<Todo>, i: int)
    requires
        ids_ascend(todos),
        0 <= i < todos.len(),
    ensures
        has_todo(todos, todos[i].todo_id),
        place_of(todos, todos[i].todo_id) == i,
        todo_of(todos, todos[i].todo_id) == todos[i],
{
    let id = todos[i].todo_id;
    let j = place_of(todos, id);
    assert(0 <= j < todos.len() && todos[j].todo_id == id);
    if j < i {
        assert(todos[j].todo_id < todos[i].todo_id);
    } else if i < j {
        assert(todos[i].todo_id < todos[j].todo_id);
    }
}

/// A todo that `todos` has stands at its place.
pub proof fn lemma_has_todo(todos: Seq<Todo>, id: i32)
    requires
        has_todo(todos, id),
    ensures
        0 <= place_of(todos, id) < todos.len(),
        todo_of(todos, id).todo_id == id,
{
}

/// Whether `shown` is what the pending list shows of a todo of `todos` that
/// is not completed.
pub open spec fn shows_pending(todos: Seq<Todo>, shown: PendingTodo) -> bool {
    exists|i: int|
        0 <= i < todos.len() && !(#[trigger] todos[i]).completed && todos[i].pending() == shown
}

/// Whether `list` is the pending list of `todos`: the todos that are not
/// completed, each once, by priority from high to low, and among equal
/// priorities in the order of creation.
pub open spec fn is_pending_list(todos: Seq<Todo>, list: Seq<PendingTodo>) -> bool {
    &&& forall|k: int| 0 <= k < list.len() ==> shows_pending(todos, #[trigger] list[k])
    &&& forall|i: int|
        0 <= i < todos.len() && !(#[trigger] todos[i]).completed ==> list.contains(
            todos[i].pending(),
        )
    &&& forall|a: int, b: int|
        0 <= a < b < list.len() ==> {
            ||| (#[trigger] list[a]).task_priority > (#[trigger] list[b]).task_priority
            ||| list[a].task_priority == list[b].task_priority && list[a].todo_id < list[b].todo_id
        }
}

/// Whether `shown` is what the completed list shows of a completed todo of
/// `todos`.
pub open spec fn shows_completed(todos: Seq<Todo>, shown: CompletedTodo) -> bool {
    exists|i: int|
        0 <= i < todos.len() && (#[trigger] todos[i]).completed && todos[i].finished() == shown
}

/// Whether `list` is the completed list of `todos`: the completed todos, each
/// once, from the latest completion to the earliest, and among equal times of
/// completion in the order of creation.
pub open spec fn is_completed_list(todos: Seq<Todo>, list: Seq<CompletedTodo>) -> bool {
    &&& forall|k: int| 0 <= k < list.len() ==> shows_completed(todos, #[trigger] list[k])
    &&& forall|i: int|
        0 <= i < todos.len() && (#[trigger] todos[i]).completed ==> list.contains(
            todos[i].finished(),
        )
    &&& forall|a: int, b: int|
        0 <= a < b < list.len() ==> {
            &&& (#[trigger] list[a]).completed_at is Some
            &&& (#[trigger] list[b]).completed_at is Some
            &&& {
                ||| list[a].completed_at->0@ > list[b].completed_at->0@
                ||| list[a].completed_at->0@ == list[b].completed_at->0@ && list[a].todo_id
                    < list[b].todo_id
            }
        }
}

/// The todos of a store fix its pending list.
pub proof fn lemma_pending_list_unique(
    todos: Seq<Todo>,
    first: Seq<PendingTodo>,
    second: Seq<PendingTodo>,
)
    requires
        is_pending_list(todos, first),
        is_pending_list(todos, second),
    ensures
        first == second,
{
    let before = |x: PendingTodo, y: PendingTodo|
        x.task_priority > y.task_priority || (x.task_priority == y.task_priority && x.todo_id
            < y.todo_id);
    assert forall|i: int| 0 <= i < first.len() implies second.contains(#[trigger] first[i]) by {
        assert(shows_pending(todos, first[i]));
    }
    assert forall|i: int| 0 <= i < second.len() implies first.contains(#[trigger] second[i]) by {
        assert(shows_pending(todos, second[i]));
    }
    lemma_sorted_unique(first, second, before);
}

/// The todos of a store fix its completed list.
pub proof fn lemma_completed_list_unique(
    todos: Seq<Todo>,
    first: Seq<CompletedTodo>,
    second: Seq<CompletedTodo>,
)
    requires
        is_completed_list(todos, first),
        is_completed_list(todos, second),
    ensures
        first == second,
{
    let before = |x: CompletedTodo, y: CompletedTodo|
        x.completed_at->0@ > y.completed_at->0@ || (x.completed_at->0@ == y.completed_at->0@
            && x.todo_id < y.todo_id);
    assert forall|i: int| 0 <= i < first.len() implies second.contains(#[trigger] first[i]) by {
        assert(shows_completed(todos, first[i]));
    }
    assert forall|i: int| 0 <= i < second.len() implies first.contains(#[trigger] second[i]) by {
        assert(shows_completed(todos, second[i]));
    }
    lemma_sorted_unique(first, second, before);
}

/// The todos, in the order in which they were created.
pub struct TodoStore {
    todos: Vec<Todo>,
    next_id: i64,
}

impl View for TodoStore {
    type V = Seq<Todo>;

    closed spec fn view(&self) -> Seq<Todo> {
        self.todos@
    }
}

impl TodoStore {
    /// The identifier that the next todo will get.
    pub closed spec fn next_id(&self) -> int {
        self.next_id as int
    }

    /// The invariant of the store: identifiers rise in the order of creation
    /// and lie below the next one to be given, and each todo is well formed.
    pub open spec fn wf(&self) -> bool {
        todos_valid(self@, self.next_id())
    }

    /// Whether every identifier has been given out.
    pub open spec fn exhausted(&self) -> bool {
        self.next_id() > i32::MAX
    }

    /// An empty store. The first todo will get the identifier 1.
    pub fn new() -> (store: TodoStore)
        ensures
            store.wf(),
            store@ == Seq::<Todo>::empty(),
            store.next_id() == 1,
    {
        TodoStore { todos: Vec::new(), next_id: 1 }
    }

    /// A store of `todos`, in their order, that gives `next_id` to the next
    /// todo; or nothing, where that would be no valid store.
    pub fn restore(todos: Vec<Todo>, next_id: i64) -> (r: Option<TodoStore>)
        ensures
            match r {
                Some(store) => store.wf() && store@ == todos@ && store.next_id() == next_id,
                None => !todos_valid(todos@, next_id as int),
            },
    {
        if next_id < 1 || next_id > i32::MAX as i64 + 1 {
            return None;
        }
        let mut i: usize = 0;
        while i < todos.len()
            invariant
                i <= todos.len(),
                1 <= next_id <= i32::MAX + 1,
                forall|j: int|
                    0 <= j < i ==> (#[trigger] todos[j]).wf() && 1 <= todos[j].todo_id < next_id,
                forall|a: int, b: int|
                    0 <= a < b < i ==> (#[trigger] todos[a]).todo_id < (#[trigger] todos[b]).todo_id,
            decreases todos.len() - i,
        {
            if !todos[i].is_valid() || todos[i].todo_id < 1 || todos[i].todo_id as i64 >= next_id {
                return None;
            }
            if i > 0 && todos[i - 1].todo_id >= todos[i].todo_id {
                return None;
            }
            proof {
                assert forall|a: int, b: int| 0 <= a < b < i + 1 implies (
                #[trigger] todos[a]).todo_id < (#[trigger] todos[b]).todo_id by {
                    if b == i && a < i - 1 {
                        assert(todos[a].todo_id < todos[i - 1].todo_id);
                    }
                }
            }
            i = i + 1;
        }
        Some(TodoStore { todos, next_id })
    }

    /// The identifier that the next todo will get.
    pub fn upcoming_id(&self) -> (id: i64)
        ensures
            id == self.next_id(),
    {
        self.next_id
    }

    /// The todo at place `i` in the order of creation.
    pub fn todo_at(&self, i: usize) -> (todo: &Todo)
        requires
            i < self@.len(),
        ensures
            *todo == self@[i as int],
    {
        &self.todos[i]
    }

    /// Copies of all todos, in the order of creation.
    pub fn all(&self) -> (todos: Vec<Todo>)
        ensures
            todos@ == self@,
    {
        let mut todos: Vec<Todo> = Vec::new();
        let mut i: usize = 0;
        while i < self.todos.len()
            invariant
                i <= self.todos.len(),
                todos@ == self.todos@.subrange(0, i as int),
            decreases self.todos.len() - i,
        {
            todos.push(self.todos[i].duplicate());
            assert(todos@ =~= self.todos@.subrange(0, i + 1));
            i = i + 1;
        }
        assert(self.todos@.subrange(0, self.todos.len() as int) =~= self.todos@);
        todos
    }

    /// The number of todos.
    pub fn len(&self) -> (n: usize)
        ensures
            n == self@.len(),
    {
        self.todos.len()
    }

    /// Where the todo with the identifier `id` stands.
    pub fn position(&self, id: i32) -> (r: Option<usize>)
        requires
            self.wf(),
        ensures
            match r {
                Some(i) => has_todo(self@, id) && i == place_of(self@, id) && i < self@.len(),
                None => !has_todo(self@, id),
            },
    {
        let mut i: usize = 0;
        while i < self.todos.len()
            invariant
                self.wf(),
                i <= self.todos.len(),
                forall|j: int| 0 <= j < i ==> (#[trigger] self.todos@[j]).todo_id != id,
            decreases self.todos.len() - i,
        {
            if self.todos[i].todo_id == id {
                proof {
                    lemma_place_of(self@, i as int);
                }
                return Some(i);
            }
            i = i + 1;
        }
        None
    }

    /// Adds a pending todo with no time spent, created at `now`, under the
    /// next identifier. Fails, changing nothing, when none is left.
    pub fn create(&mut self, project: String, task: String, task_priority: i32, now: Timestamp) -> (r:
        Result<Todo, AppError>)
        requires
            old(self).wf(),
        ensures
            final(self).wf(),
            match r {
                Ok(todo) => {
                    &&& !old(self).exhausted()
                    &&& todo == Todo::fresh(
                        old(self).next_id() as i32,
                        project,
                        task,
                        task_priority,
                        now,
                    )
                    &&& final(self)@ == old(self)@.push(todo)
                    &&& final(self).next_id() == old(self).next_id() + 1
                },
                Err(e) => {
                    &&& old(self).exhausted()
                    &&& e == AppError(Failure::StoreUnavailable)
                    &&& *final(self) == *old(self)
                },
            },
    {
        if self.next_id > i32::MAX as i64 {
            return Err(AppError::store_unavailable());
        }
        let todo = Todo::new(self.next_id as i32, project, task, task_priority, now);
        let copy = todo.duplicate();
        self.todos.push(todo);
        self.next_id = self.next_id + 1;
        Ok(copy)
    }

    /// The todo with the identifier `id`.
    pub fn get(&self, id: i32) -> (r: Result<Todo, AppError>)
        requires
            self.wf(),
        ensures
            match r {
                Ok(todo) => has_todo(self@, id) && todo == todo_of(self@, id),
                Err(e) => !has_todo(self@, id) && e == AppError(Failure::NotFound),
            },
    {
        match self.position(id) {
            Some(i) => Ok(self.todos[i].duplicate()),
            None => Err(AppError::not_found()),
        }
    }

    /// Overwrites project, task and priority of the todo `id`.
    pub fn update(&mut self, id: i32, project: String, task: String, task_priority: i32) -> (r:
        Result<Todo, AppError>)
        requires
            old(self).wf(),
        ensures
            final(self).wf(),
            final(self).next_id() == old(self).next_id(),
            match r {
                Ok(todo) => {
                    &&& has_todo(old(self)@, id)
                    &&& todo == todo_of(old(self)@, id).after_edit(project, task, task_priority)
                    &&& final(self)@ == old(self)@.update(place_of(old(self)@, id), todo)
                },
                Err(e) => {
                    &&& !has_todo(old(self)@, id)
                    &&& e == AppError(Failure::NotFound)
                    &&& *final(self) == *old(self)
                },
            },
    {
        match self.position(id) {
            Some(i) => {
                self.todos[i].edit(project, task, task_priority);
                Ok(self.todos[i].duplicate())
            },
            None => Err(AppError::not_found()),
        }
    }

    /// Removes the todo `id` for good.
    pub fn delete(&mut self, id: i32) -> (r: Result<Todo, AppError>)
        requires
            old(self).wf(),
        ensures
            final(self).wf(),
            final(self).next_id() == old(self).next_id(),
            match r {
                Ok(todo) => {
                    &&& has_todo(old(self)@, id)
                    &&& todo == todo_of(old(self)@, id)
                    &&& final(self)@ == old(self)@.remove(place_of(old(self)@, id))
                    &&& !has_todo(final(self)@, id)
                },
                Err(e) => {
                    &&& !has_todo(old(self)@, id)
                    &&& e == AppError(Failure::NotFound)
                    &&& *final(self) == *old(self)
                },
            },
    {
        match self.position(id) {
            Some(i) => {
                let removed = self.todos.remove(i);
                proof {
                    let before = old(self)@;
                    let after = self@;
                    assert forall|j: int| 0 <= j < after.len() implies (#[trigger] after[j]).todo_id
                        != id by {
                        if j < i {
                            assert(after[j] == before[j]);
                        } else {
                            assert(after[j] == before[j + 1]);
                        }
                    }
                }
                Ok(removed)
            },
            None => Err(AppError::not_found()),
        }
    }

    /// Marks the todo `id` completed at `now`.
    pub fn complete(&mut self, id: i32, now: Timestamp) -> (r: Result<Todo, AppError>)
        requires
            old(self).wf(),
        ensures
            final(self).wf(),
            final(self).next_id() == old(self).next_id(),
            match r {
                Ok(todo) => {
                    &&& has_todo(old(self)@, id)
                    &&& todo == todo_of(old(self)@, id).after_complete(now)
                    &&& final(self)@ == old(self)@.update(place_of(old(self)@, id), todo)
                },
                Err(e) => {
                    &&& !has_todo(old(self)@, id)
                    &&& e == AppError(Failure::NotFound)
                    &&& *final(self) == *old(self)
                },
            },
    {
        match self.position(id) {
            Some(i) => {
                self.todos[i].complete(now);
                Ok(self.todos[i].duplicate())
            },
            None => Err(AppError::not_found()),
        }
    }

    /// Takes the completion of the todo `id` back.
    pub fn revert(&mut self, id: i32) -> (r: Result<Todo, AppError>)
        requires
            old(self).wf(),
        ensures
            final(self).wf(),
            final(self).next_id() == old(self).next_id(),
            match r {
                Ok(todo) => {
                    &&& has_todo(old(self)@, id)
                    &&& todo == todo_of(old(self)@, id).after_revert()
                    &&& final(self)@ == old(self)@.update(place_of(old(self)@, id), todo)
                },
                Err(e) => {
                    &&& !has_todo(old(self)@, id)
                    &&& e == AppError(Failure::NotFound)
                    &&& *final(self) == *old(self)
                },
            },
    {
        match self.position(id) {
            Some(i) => {
                self.todos[i].revert();
                Ok(self.todos[i].duplicate())
            },
            None => Err(AppError::not_found()),
        }
    }

    /// Marks the todo `id` active.
    pub fn activate(&mut self, id: i32) -> (r: Result<Todo, AppError>)
        requires
            old(self).wf(),
        ensures
            final(self).wf(),
            final(self).next_id() == old(self).next_id(),
            match r {
                Ok(todo) => {
                    &&& has_todo(old(self)@, id)
                    &&& todo == todo_of(old(self)@, id).after_activate()
                    &&& final(self)@ == old(self)@.update(place_of(old(self)@, id), todo)
                },
                Err(e) => {
                    &&& !has_todo(old(self)@, id)
                    &&& e == AppError(Failure::NotFound)
                    &&& *final(self) == *old(self)
                },
            },
    {
        match self.position(id) {
            Some(i) => {
                self.todos[i].activate();
                Ok(self.todos[i].duplicate())
            },
            None => Err(AppError::not_found()),
        }
    }

    /// Ends the activity of the todo `id`, whether it was active or not, and
    /// adds `duration` to its cumulative time. Fails, changing nothing, when
    /// the duration is negative, when there is no such todo, or when the time
    /// would leave the range of the counter.
    pub fn deactivate(&mut self, id: i32, duration: i32) -> (r: Result<Todo, AppError>)
        requires
            old(self).wf(),
        ensures
            final(self).wf(),
            final(self).next_id() == old(self).next_id(),
            match r {
                Ok(todo) => {
                    &&& 0 <= duration
                    &&& has_todo(old(self)@, id)
                    &&& todo_of(old(self)@, id).total_time + duration <= i32::MAX
                    &&& todo == todo_of(old(self)@, id).after_deactivate(duration)
                    &&& final(self)@ == old(self)@.update(place_of(old(self)@, id), todo)
                },
                Err(e) => {
                    &&& *final(self) == *old(self)
                    &&& if duration < 0 {
                        e == AppError(Failure::Validation(Field::Duration))
                    } else if has_todo(old(self)@, id) {
                        &&& todo_of(old(self)@, id).total_time + duration > i32::MAX
                        &&& e == AppError(Failure::StoreUnavailable)
                    } else {
                        e == AppError(Failure::NotFound)
                    }
                },
            },
    {
        if duration < 0 {
            return Err(AppError::invalid(Field::Duration));
        }
        match self.position(id) {
            Some(i) => {
                if self.todos[i].total_time > i32::MAX - duration {
                    return Err(AppError::store_unavailable());
                }
                self.todos[i].deactivate(duration);
                Ok(self.todos[i].duplicate())
            },
            None => Err(AppError::not_found()),
        }
    }

    /// Takes `duration` off the cumulative time of the todo `id`, for a
    /// progress note of that duration that has left the log.
    pub(crate) fn remove_time(&mut self, id: i32, duration: i32) -> (r: Result<Todo, AppError>)
        requires
            old(self).wf(),
            0 <= duration,
            has_todo(old(self)@, id) ==> duration <= todo_of(old(self)@, id).total_time,
        ensures
            final(self).wf(),
            final(self).next_id() == old(self).next_id(),
            match r {
                Ok(todo) => {
                    &&& has_todo(old(self)@, id)
                    &&& todo == todo_of(old(self)@, id).after_removal(duration)
                    &&& final(self)@ == old(self)@.update(place_of(old(self)@, id), todo)
                },
                Err(e) => {
                    &&& !has_todo(old(self)@, id)
                    &&& e == AppError(Failure::NotFound)
                    &&& *final(self) == *old(self)
                },
            },
    {
        match self.position(id) {
            Some(i) => {
                self.todos[i].remove_time(duration);
                Ok(self.todos[i].duplicate())
            },
            None => Err(AppError::not_found()),
        }
    }

    /// The todos that are not completed, by priority from high to low; todos
    /// of equal priority stand in the order of their creation.
    pub fn list_pending(&self) -> (list: Vec<PendingTodo>)
        requires
            self.wf(),
        ensures
            is_pending_list(self@, list@),
    {
        let n = self.todos.len();
        let mut keys: Vec<Option<i64>> = Vec::new();
        let mut i: usize = 0;
        while i < n
            invariant
                n == self.todos.len(),
                i <= n,
                keys.len() == i,
                forall|j: int|
                    0 <= j < i ==> (#[trigger] keys[j]) == if self.todos[j].completed {
                        None
                    } else {
                        Some((-self.todos[j].task_priority) as i64)
                    },
            decreases n - i,
        {
            if self.todos[i].completed {
                keys.push(None);
            } else {
                keys.push(Some(-(self.todos[i].task_priority as i64)));
            }
            i = i + 1;
        }
        let picked = select_in_order(&keys);
        let mut list: Vec<PendingTodo> = Vec::new();
        let mut k: usize = 0;
        while k < picked.len()
            invariant
                k <= picked.len(),
                list.len() == k,
                keys.len() == self.todos.len(),
                is_selection(keys@, picked@),
                forall|j: int|
                    0 <= j < k ==> (#[trigger] list[j]) == self.todos[picked[j] as int].pending(),
            decreases picked.len() - k,
        {
            assert(picked[k as int] < keys.len());
            list.push(self.todos[picked[k]].to_pending());
            k = k + 1;
        }
        proof {
            let todos = self@;
            assert forall|j: int| 0 <= j < list.len() implies shows_pending(
                todos,
                #[trigger] list[j],
            ) by {
                let p = picked[j] as int;
                assert(keys[p] is Some);
                assert(!todos[p].completed && todos[p].pending() == list[j]);
            }
            assert forall|p: int| 0 <= p < todos.len() && !(#[trigger] todos[p]).completed implies list@.contains(
                todos[p].pending(),
            ) by {
                assert(keys[p] is Some);
                assert(lists(picked@, p));
                let j = choose|j: int| 0 <= j < picked.len() && picked[j] == p;
                assert(list[j] == todos[p].pending());
            }
            assert forall|a: int, b: int| 0 <= a < b < list.len() implies {
                ||| (#[trigger] list[a]).task_priority > (#[trigger] list[b]).task_priority
                ||| list[a].task_priority == list[b].task_priority && list[a].todo_id
                    < list[b].todo_id
            } by {
                let x = picked[a] as int;
                let y = picked[b] as int;
                assert(comes_first(keys@, x, y));
                assert(keys[x] is Some && keys[y] is Some);
                if x < y {
                    assert(todos[x].todo_id < todos[y].todo_id);
                }
            }
        }
        list
    }

    /// The completed todos, from the latest completion to the earliest;
    /// todos completed at the same instant stand in the order of their
    /// creation.
    pub fn list_completed(&self) -> (list: Vec<CompletedTodo>)
        requires
            self.wf(),
        ensures
            is_completed_list(self@, list@),
    {
        let n = self.todos.len();
        let mut keys: Vec<Option<i64>> = Vec::new();
        let mut i: usize = 0;
        while i < n
            invariant
                n == self.todos.len(),
                i <= n,
                keys.len() == i,
                self.wf(),
                forall|j: int|
                    0 <= j < i ==> (#[trigger] keys[j]) == if self.todos[j].completed {
                        Some((-1 - self.todos[j].completed_at->0@) as i64)
                    } else {
                        None
                    },
            decreases n - i,
        {
            assert(self@[i as int].wf());
            match self.todos[i].completed_at {
                Some(at) => {
                    keys.push(Some(-1 - at.micros()));
                },
                None => {
                    keys.push(None);
                },
            }
            i = i + 1;
        }
        let picked = select_in_order(&keys);
        let mut list: Vec<CompletedTodo> = Vec::new();
        let mut k: usize = 0;
        while k < picked.len()
            invariant
                k <= picked.len(),
                list.len() == k,
                keys.len() == self.todos.len(),
                is_selection(keys@, picked@),
                forall|j: int|
                    0 <= j < k ==> (#[trigger] list[j]) == self.todos[picked[j] as int].finished(),
            decreases picked.len() - k,
        {
            assert(picked[k as int] < keys.len());
            list.push(self.todos[picked[k]].to_completed());
            k = k + 1;
        }
        proof {
            let todos = self@;
            assert forall|j: int| 0 <= j < list.len() implies shows_completed(
                todos,
                #[trigger] list[j],
            ) by {
                let p = picked[j] as int;
                assert(keys[p] is Some);
                assert(todos[p].completed && todos[p].finished() == list[j]);
            }
            assert forall|p: int| 0 <= p < todos.len() && (#[trigger] todos[p]).completed implies list@.contains(
                todos[p].finished(),
            ) by {
                assert(keys[p] is Some);
                assert(lists(picked@, p));
                let j = choose|j: int| 0 <= j < picked.len() && picked[j] == p;
                assert(list[j] == todos[p].finished());
            }
            assert forall|a: int, b: int| 0 <= a < b < list.len() implies {
                &&& (#[trigger] list[a]).completed_at is Some
                &&& (#[trigger] list[b]).completed_at is Some
                &&& {
                    ||| list[a].completed_at->0@ > list[b].completed_at->0@
                    ||| list[a].completed_at->0@ == list[b].completed_at->0@ && list[a].todo_id
                        < list[b].todo_id
                }
            } by {
                let x = picked[a] as int;
                let y = picked[b] as int;
                assert(comes_first(keys@, x, y));
                assert(keys[x] is Some && keys[y] is Some);
                assert(todos[x].wf() && todos[y].wf());
                todos[x].completed_at->0.lemma_fits();
                todos[y].completed_at->0.lemma_fits();
                if x < y {
                    assert(todos[x].todo_id < todos[y].todo_id);
                }
            }
        }
        list
    }
}

} // verus!
