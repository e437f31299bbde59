//! The progress log: the notes on time spent, in the order in which they
//! were made.

use crate::date::Timestamp;
use crate::error::{AppError, Failure, Field};
use crate::order::{comes_first, is_selection, lemma_sorted_unique, lists, select_in_order};
use crate::records::{Progress, ProgressNote};
use vstd::prelude::*;

verus! {

/// Whether the identifiers rise along `notes`, so that none occurs twice.
pub open spec fn note_ids_ascend(notes: Seq<Progress>) -> bool {
    forall|i: int, j: int|
        0 <= i < j < notes.len() ==> (#[trigger] notes[i]).progress_id < (
        #[trigger] notes[j]).progress_id
}

/// Whether a note of `notes` has the identifier `id`.
pub open spec fn has_note(notes: Seq<Progress>, id: i32) -> bool {
    exists|i: int| 0 <= i < notes.len() && (#[trigger] notes[i]).progress_id == id
}

/// Where in `notes` the note with the identifier `id` stands, if there is one.
pub open spec fn place_of_note(notes: Seq<Progress>, id: i32) -> int {
    choose|i: int| 0 <= i < notes.len() && (#[trigger] notes[i]).progress_id == id
}

/// The note of `notes` with the identifier `id`, if there is one.
pub open spec fn note_of(notes: Seq<Progress>, id: i32) -> Progress {
    notes[place_of_note(notes, id)]
}

/// The time that `notes` record for the todo `todo_id`: the sum of the
/// durations of its notes.
pub open spec fn logged(notes: Seq<Progress>, todo_id: i32) -> int
    decreases notes.len(),
{
    if notes.len() == 0 {
        0
    } else {
        logged(notes.drop_last(), todo_id) + if notes.last().todo_id == todo_id {
            notes.last().time_spent as int
        } else {
            0
        }
    }
}

/// The notes of `notes` that are not about the todo `todo_id`, in their order.
pub open spec fn without(notes: Seq<Progress>, todo_id: i32) -> Seq<Progress>
    decreases notes.len(),
{
    if notes.len() == 0 {
        notes
    } else if notes.last().todo_id == todo_id {
        without(notes.drop_last(), todo_id)
    } else {
        without(notes.drop_last(), todo_id).push(notes.last())
    }
}

/// Whether no duration in `notes` is negative.
pub open spec fn durations_valid(notes: Seq<Progress>) -> bool {
    forall|i: int| 0 <= i < notes.len() ==> (#[trigger] notes[i]).time_spent >= 0
}

/// What holds of the notes of a log whose next identifier is `next_id`:
/// identifiers rise in the order of making, from 1 on and below `next_id`,
/// and no duration is negative.
pub open spec fn notes_valid(notes: Seq<Progress>, next_id: int) -> bool {
    &&& note_ids_ascend(notes)
    &&& durations_valid(notes)
    &&& forall|i: int| 0 <= i < notes.len() ==> 1 <= (#[trigger] notes[i]).progress_id < next_id
    &&& 1 <= next_id <= i32::MAX + 1
}

/// Where identifiers rise, a note's identifier says where it stands.
pub proof fn lemma_place_of_note(notes: Seq<Progress>, i: int)
    requires
        note_ids_ascend(notes),
        0 <= i < notes.len(),
    ensures
        has_note(notes, notes[i].progress_id),
        place_of_note(notes, notes[i].progress_id) == i,
        note_of(notes, notes[i].progress_id) == notes[i],
{
    let id = notes[i].progress_id;
    let j = place_of_note(notes, id);
    assert(0 <= j < notes.len() && notes[j].progress_id == id);
    if j < i {
        assert(notes[j].progress_id < notes[i].progress_id);
    } else if i < j {
        assert(notes[i].progress_id < notes[j].progress_id);
    }
}

/// A new note adds its duration to the time of its todo and to no other.
pub proof fn lemma_logged_push(notes: Seq<Progress>, note: Progress, todo_id: i32)
    ensures
        logged(notes.push(note), todo_id) == logged(notes, todo_id) + if note.todo_id == todo_id {
            note.time_spent as int
        } else {
            0
        },
{
    assert(notes.push(note).drop_last() =~= notes);
}

/// A note that leaves takes its duration off the time of its todo and off no
/// other.
pub proof fn lemma_logged_remove(notes: Seq<Progress>, i: int, todo_id: i32)
    requires
        0 <= i < notes.len(),
    ensures
        logged(notes.remove(i), todo_id) == logged(notes, todo_id) - if notes[i].todo_id == todo_id {
            notes[i].time_spent as int
        } else {
            0
        },
    decreases notes.len(),
{
    if i == notes.len() - 1 {
        assert(notes.remove(i) =~= notes.drop_last());
    } else {
        lemma_logged_remove(notes.drop_last(), i, todo_id);
        assert(notes.remove(i).drop_last() =~= notes.drop_last().remove(i));
        assert(notes.remove(i).last() == notes.last());
    }
}

/// Durations that are not negative add up to a time that is not negative.
pub proof fn lemma_logged_nonnegative(notes: Seq<Progress>, todo_id: i32)
    requires
        durations_valid(notes),
    ensures
        logged(notes, todo_id) >= 0,
    decreases notes.len(),
{
    if notes.len() > 0 {
        assert(notes[notes.len() - 1].time_spent >= 0);
        assert forall|i: int| 0 <= i < notes.drop_last().len() implies (
        #[trigger] notes.drop_last()[i]).time_spent >= 0 by {
            assert(notes.drop_last()[i] == notes[i]);
        }
        lemma_logged_nonnegative(notes.drop_last(), todo_id);
    }
}

/// The time of a todo is at least the duration of each of its notes.
pub proof fn lemma_logged_covers(notes: Seq<Progress>, i: int)
    requires
        durations_valid(notes),
        0 <= i < notes.len(),
    ensures
        logged(notes, notes[i].todo_id) >= notes[i].time_spent,
{
    lemma_logged_remove(notes, i, notes[i].todo_id);
    assert forall|j: int| 0 <= j < notes.remove(i).len() implies (#[trigger] notes.remove(
        i,
    )[j]).time_spent >= 0 by {
        if j < i {
            assert(notes.remove(i)[j] == notes[j]);
        } else {
            assert(notes.remove(i)[j] == notes[j + 1]);
        }
    }
    lemma_logged_nonnegative(notes.remove(i), notes[i].todo_id);
}

/// The notes made up to some point record no more time than all of them.
pub proof fn lemma_logged_prefix(notes: Seq<Progress>, k: int, todo_id: i32)
    requires
        durations_valid(notes),
        0 <= k <= notes.len(),
    ensures
        0 <= logged(notes.subrange(0, k), todo_id) <= logged(notes, todo_id),
    decreases notes.len() - k,
{
    if k == notes.len() {
        assert(notes.subrange(0, k) =~= notes);
        lemma_logged_nonnegative(notes, todo_id);
    } else {
        let longer = notes.subrange(0, k + 1);
        assert(longer.drop_last() =~= notes.subrange(0, k));
        assert(longer.last() == notes[k]);
        assert(notes[k].time_spent >= 0);
        assert forall|i: int| 0 <= i < k implies (#[trigger] notes.subrange(0, k)[i]).time_spent
            >= 0 by {
            assert(notes.subrange(0, k)[i] == notes[i]);
        }
        lemma_logged_nonnegative(notes.subrange(0, k), todo_id);
        lemma_logged_prefix(notes, k + 1, todo_id);
    }
}

/// A todo without notes has no time recorded.
pub proof fn lemma_logged_nothing(notes: Seq<Progress>, todo_id: i32)
    requires
        forall|i: int| 0 <= i < notes.len() ==> (#[trigger] notes[i]).todo_id != todo_id,
    ensures
        logged(notes, todo_id) == 0,
    decreases notes.len(),
{
    if notes.len() > 0 {
        assert(notes[notes.len() - 1].todo_id != todo_id);
        assert forall|i: int| 0 <= i < notes.drop_last().len() implies (
        #[trigger] notes.drop_last()[i]).todo_id != todo_id by {
            assert(notes.drop_last()[i] == notes[i]);
        }
        lemma_logged_nothing(notes.drop_last(), todo_id);
    }
}

/// What is left when the notes of one todo go: the notes of the other todos,
/// in their order, with the times of the other todos as they were.
pub proof fn lemma_without(notes: Seq<Progress>, gone: i32)
    ensures
        without(notes, gone).len() <= notes.len(),
        forall|k: int|
            0 <= k < without(notes, gone).len() ==> (#[trigger] without(notes, gone)[k]).todo_id
                != gone && notes.contains(without(notes, gone)[k]),
        forall|i: int|
            0 <= i < notes.len() && (#[trigger] notes[i]).todo_id != gone ==> without(
                notes,
                gone,
            ).contains(notes[i]),
        note_ids_ascend(notes) ==> note_ids_ascend(without(notes, gone)),
        forall|todo_id: i32|
            todo_id != gone ==> #[trigger] logged(without(notes, gone), todo_id) == logged(
                notes,
                todo_id,
            ),
        logged(without(notes, gone), gone) == 0,
    decreases notes.len(),
{
    let left = without(notes, gone);
    if notes.len() > 0 {
        let front = notes.drop_last();
        let rest = without(front, gone);
        let last = notes.last();
        lemma_without(front, gone);
        assert forall|k: int| 0 <= k < left.len() implies (#[trigger] left[k]).todo_id != gone
            && notes.contains(left[k]) by {
            if k < rest.len() {
                assert(left[k] == rest[k]);
                assert(front.contains(rest[k]));
                let i = choose|i: int| 0 <= i < front.len() && front[i] == rest[k];
                assert(notes[i] == rest[k]);
            } else {
                assert(notes[notes.len() - 1] == left[k]);
            }
        }
        assert forall|i: int| 0 <= i < notes.len() && (#[trigger] notes[i]).todo_id
            != gone implies left.contains(notes[i]) by {
            if i < front.len() {
                assert(front[i] == notes[i]);
                assert(rest.contains(front[i]));
                let k = choose|k: int| 0 <= k < rest.len() && rest[k] == front[i];
                assert(left[k] == notes[i]);
            } else {
                assert(left[left.len() - 1] == notes[i]);
            }
        }
        if note_ids_ascend(notes) {
            assert(note_ids_ascend(front)) by {
                assert forall|i: int, j: int| 0 <= i < j < front.len() implies (
                #[trigger] front[i]).progress_id < (#[trigger] front[j]).progress_id by {
                    assert(front[i] == notes[i] && front[j] == notes[j]);
                }
            }
            assert forall|a: int, b: int| 0 <= a < b < left.len() implies (
            #[trigger] left[a]).progress_id < (#[trigger] left[b]).progress_id by {
                if b < rest.len() {
                    assert(left[a] == rest[a] && left[b] == rest[b]);
                } else {
                    assert(left[a] == rest[a]);
                    assert(front.contains(rest[a]));
                    let i = choose|i: int| 0 <= i < front.len() && front[i] == rest[a];
                    assert(notes[i] == rest[a]);
                    assert(notes[notes.len() - 1] == left[b]);
                }
            }
        }
        assert forall|todo_id: i32| todo_id != gone implies #[trigger] logged(left, todo_id)
            == logged(notes, todo_id) by {
            if last.todo_id != gone {
                lemma_logged_push(rest, last, todo_id);
            }
        }
        if last.todo_id != gone {
            lemma_logged_push(rest, last, gone);
        }
    }
}

/// Whether `shown` is what is shown of a note of `notes` about the todo
/// `todo_id`.
pub open spec fn shows_note(notes: Seq<Progress>, todo_id: i32, shown: ProgressNote) -> bool {
    exists|i: int|
        0 <= i < notes.len() && (#[trigger] notes[i]).todo_id == todo_id && notes[i].shown()
            == shown
}

/// Whether `list` is the progress list of the todo `todo_id`: its notes,
/// each once, from the earliest to the latest, and among notes of the same
/// instant in the order in which they were made.
pub open spec fn is_progress_list(notes: Seq<Progress>, todo_id: i32, list: Seq<ProgressNote>) -> bool {
    &&& forall|k: int| 0 <= k < list.len() ==> shows_note(notes, todo_id, #[trigger] list[k])
    &&& forall|i: int|
        0 <= i < notes.len() && (#[trigger] notes[i]).todo_id == todo_id ==> list.contains(
            notes[i].shown(),
        )
    &&& forall|a: int, b: int|
        0 <= a < b < list.len() ==> {
            ||| (#[trigger] list[a]).made_at@ < (#[trigger] list[b]).made_at@
            ||| list[a].made_at@ == list[b].made_at@ && list[a].progress_id < list[b].progress_id
        }
}

/// The notes of a log fix the progress list of each todo.
pub proof fn lemma_progress_list_unique(
    notes: Seq<Progress>,
    todo_id: i32,
    first: Seq<ProgressNote>,
    second: Seq<ProgressNote>,
)
    requires
        is_progress_list(notes, todo_id, first),
        is_progress_list(notes, todo_id, second),
    ensures
        first == second,
{
    let before = |x: ProgressNote, y: ProgressNote|
        x.made_at@ < y.made_at@ || (x.made_at@ == y.made_at@ && x.progress_id < y.progress_id);
    assert forall|i: int| 0 <= i < first.len() implies second.contains(#[trigger] first[i]) by {
        assert(shows_note(notes, todo_id, first[i]));
    }
    assert forall|i: int| 0 <= i < second.len() implies first.contains(#[trigger] second[i]) by {
        assert(shows_note(notes, todo_id, second[i]));
    }
    lemma_sorted_unique(first, second, before);
}

/// The notes on time spent, in the order in which they were made.
pub struct ProgressLog {
    notes: Vec<Progress>,
    next_id: i64,
}

impl View for ProgressLog {
    type V = Seq<Progress>;

    closed spec fn view(&self) -> Seq<Progress> {
        self.notes@
    }
}

impl ProgressLog {
    /// The identifier that the next note will get.
    pub closed spec fn next_id(&self) -> int {
        self.next_id as int
    }

    /// The invariant of the log: identifiers rise in the order of making and
    /// lie below the next one to be given, and no duration is negative.
    pub open spec fn wf(&self) -> bool {
        notes_valid(self@, self.next_id())
    }

    /// Whether every identifier has been given out.
    pub open spec fn exhausted(&self) -> bool {
        self.next_id() > i32::MAX
    }

    /// An empty log. The first note will get the identifier 1.
    pub fn new() -> (log: ProgressLog)
        ensures
            log.wf(),
            log@ == Seq::<Progress>::empty(),
            log.next_id() == 1,
    {
        ProgressLog { notes: Vec::new(), next_id: 1 }
    }

    /// A log of `notes`, in their order, that gives `next_id` to the next
    /// note; or nothing, where that would be no valid log.
    pub fn restore(notes: Vec<Progress>, next_id: i64) -> (r: Option<ProgressLog>)
        ensures
            match r {
                Some(log) => log.wf() && log@ == notes@ && log.next_id() == next_id,
                None => !notes_valid(notes@, next_id as int),
            },
    {
        if next_id < 1 || next_id > i32::MAX as i64 + 1 {
            return None;
        }
        let mut i: usize = 0;
        while i < notes.len()
            invariant
                i <= notes.len(),
                1 <= next_id <= i32::MAX + 1,
                forall|j: int|
                    0 <= j < i ==> (#[trigger] notes[j]).time_spent >= 0 && 1
                        <= notes[j].progress_id < next_id,
                forall|a: int, b: int|
                    0 <= a < b < i ==> (#[trigger] notes[a]).progress_id < (
                    #[trigger] notes[b]).progress_id,
            decreases notes.len() - i,
        {
            if notes[i].time_spent < 0 || notes[i].progress_id < 1 || notes[i].progress_id as i64
                >= next_id {
                return None;
            }
            if i > 0 && notes[i - 1].progress_id >= notes[i].progress_id {
                return None;
            }
            proof {
                assert forall|a: int, b: int| 0 <= a < b < i + 1 implies (
                #[trigger] notes[a]).progress_id < (#[trigger] notes[b]).progress_id by {
                    if b == i && a < i - 1 {
                        assert(notes[a].progress_id < notes[i - 1].progress_id);
                    }
                }
            }
            i = i + 1;
        }
        Some(ProgressLog { notes, next_id })
    }

    /// The identifier that the next note will get.
    pub fn upcoming_id(&self) -> (id: i64)
        ensures
            id == self.next_id(),
    {
        self.next_id
    }

    /// The note at place `i` in the order of making.
    pub fn note_at(&self, i: usize) -> (note: &Progress)
        requires
            i < self@.len(),
        ensures
            *note == self@[i as int],
    {
        &self.notes[i]
    }

    /// The time that the notes record for the todo `todo_id`, unless it is
    /// more than a cumulative time can hold.
    pub fn time_for(&self, todo_id: i32) -> (r: Option<i32>)
        requires
            self.wf(),
        ensures
            match r {
                Some(time) => time == logged(self@, todo_id),
                None => logged(self@, todo_id) > i32::MAX,
            },
    {
        let n = self.notes.len();
        let mut time: i32 = 0;
        let mut i: usize = 0;
        while i < n
            invariant
                self.wf(),
                n == self.notes.len(),
                i <= n,
                0 <= time,
                time == logged(self.notes@.subrange(0, i as int), todo_id),
            decreases n - i,
        {
            proof {
                assert(self.notes@.subrange(0, i + 1).drop_last() =~= self.notes@.subrange(
                    0,
                    i as int,
                ));
                assert(self@[i as int].time_spent >= 0);
            }
            if self.notes[i].todo_id == todo_id {
                if time > i32::MAX - self.notes[i].time_spent {
                    proof {
                        lemma_logged_prefix(self@, i + 1, todo_id);
                    }
                    return None;
                }
                time = time + self.notes[i].time_spent;
            }
            i = i + 1;
        }
        assert(self.notes@.subrange(0, n as int) =~= self.notes@);
        Some(time)
    }

    /// Copies of all notes, in the order of making.
    pub fn all(&self) -> (notes: Vec<Progress>)
        ensures
            notes@ == self@,
    {
        let mut notes: Vec<Progress> = Vec::new();
        let mut i: usize = 0;
        while i < self.notes.len()
            invariant
                i <= self.notes.len(),
                notes@ == self.notes@.subrange(0, i as int),
            decreases self.notes.len() - i,
        {
            notes.push(self.notes[i].duplicate());
            assert(notes@ =~= self.notes@.subrange(0, i + 1));
            i = i + 1;
        }
        assert(self.notes@.subrange(0, self.notes.len() as int) =~= self.notes@);
        notes
    }

    /// The number of notes.
    pub fn len(&self) -> (n: usize)
        ensures
            n == self@.len(),
    {
        self.notes.len()
    }

    /// Whether the log has an identifier left for one more note.
    pub fn has_room(&self) -> (b: bool)
        ensures
            b == !self.exhausted(),
    {
        self.next_id <= i32::MAX as i64
    }

    /// Where the note with the identifier `id` stands.
    pub fn position(&self, id: i32) -> (r: Option<usize>)
        requires
            self.wf(),
        ensures
            match r {
                Some(i) => has_note(self@, id) && i == place_of_note(self@, id) && i < self@.len(),
                None => !has_note(self@, id),
            },
    {
        let mut i: usize = 0;
        while i < self.notes.len()
            invariant
                self.wf(),
                i <= self.notes.len(),
                forall|j: int| 0 <= j < i ==> (#[trigger] self.notes@[j]).progress_id != id,
            decreases self.notes.len() - i,
        {
            if self.notes[i].progress_id == id {
                proof {
                    lemma_place_of_note(self@, i as int);
                }
                return Some(i);
            }
            i = i + 1;
        }
        None
    }

    /// Adds a note of `duration` spent on the todo `todo_id`, made at `now`,
    /// under the next identifier. Fails, changing nothing, when the duration
    /// is negative or no identifier is left.
    pub fn append(&mut self, todo_id: i32, note: String, duration: i32, now: Timestamp) -> (r: Result<
        Progress,
        AppError,
    >)
        requires
            old(self).wf(),
        ensures
            final(self).wf(),
            match r {
                Ok(made) => {
                    &&& 0 <= duration
                    &&& !old(self).exhausted()
                    &&& made == (Progress {
                        progress_id: old(self).next_id() as i32,
                        todo_id,
                        note,
                        made_at: now,
                        time_spent: duration,
                    })
                    &&& final(self)@ == old(self)@.push(made)
                    &&& final(self).next_id() == old(self).next_id() + 1
                },
                Err(e) => {
                    &&& *final(self) == *old(self)
                    &&& if duration < 0 {
                        e == AppError(Failure::Validation(Field::Duration))
                    } else {
                        old(self).exhausted() && e == AppError(Failure::StoreUnavailable)
                    }
                },
            },
    {
        if duration < 0 {
            return Err(AppError::invalid(Field::Duration));
        }
        if self.next_id > i32::MAX as i64 {
            return Err(AppError::store_unavailable());
        }
        let made = Progress {
            progress_id: self.next_id as i32,
            todo_id,
            note,
            made_at: now,
            time_spent: duration,
        };
        let copy = made.duplicate();
        self.notes.push(made);
        self.next_id = self.next_id + 1;
        Ok(copy)
    }

    /// Removes the note `id` and hands it back, with the duration that it
    /// was stored with.
    pub fn delete(&mut self, id: i32) -> (r: Result<Progress, AppError>)
        requires
            old(self).wf(),
        ensures
            final(self).wf(),
            final(self).next_id() == old(self).next_id(),
            match r {
                Ok(removed) => {
                    &&& has_note(old(self)@, id)
                    &&& removed == note_of(old(self)@, id)
                    &&& final(self)@ == old(self)@.remove(place_of_note(old(self)@, id))
                    &&& !has_note(final(self)@, id)
                },
                Err(e) => {
                    &&& !has_note(old(self)@, id)
                    &&& e == AppError(Failure::NotFound)
                    &&& *final(self) == *old(self)
                },
            },
    {
        match self.position(id) {
            Some(i) => {
                let removed = self.notes.remove(i);
                proof {
                    let before = old(self)@;
                    let after = self@;
                    assert forall|j: int| 0 <= j < after.len() implies (
                    #[trigger] after[j]).progress_id != id by {
                        if j < i {
                            assert(after[j] == before[j]);
                        } else {
                            assert(after[j] == before[j + 1]);
                        }
                    }
                }
                Ok(removed)
            },
            None => Err(AppError::not_found()),
        }
    }

    /// Removes every note about the todo `todo_id`.
    pub fn delete_for(&mut self, todo_id: i32)
        requires
            old(self).wf(),
        ensures
            final(self).wf(),
            final(self).next_id() == old(self).next_id(),
            final(self)@ == without(old(self)@, todo_id),
    {
        let n = self.notes.len();
        let mut kept: Vec<Progress> = Vec::new();
        let mut i: usize = 0;
        while i < n
            invariant
                n == self.notes.len(),
                i <= n,
                kept@ == without(self.notes@.subrange(0, i as int), todo_id),
            decreases n - i,
        {
            assert(self.notes@.subrange(0, i + 1).drop_last() =~= self.notes@.subrange(0, i as int));
            if self.notes[i].todo_id != todo_id {
                kept.push(self.notes[i].duplicate());
            }
            i = i + 1;
        }
        proof {
            assert(self.notes@.subrange(0, n as int) =~= self.notes@);
            lemma_without(self.notes@, todo_id);
            let before = self.notes@;
            assert forall|k: int| 0 <= k < kept.len() implies 1 <= (#[trigger] kept@[k]).progress_id
                < self.next_id() && kept@[k].time_spent >= 0 by {
                assert(before.contains(kept@[k]));
                let j = choose|j: int| 0 <= j < before.len() && before[j] == kept@[k];
                assert(before[j].time_spent >= 0);
            }
        }
        self.notes = kept;
    }

    /// The notes about the todo `todo_id`, from the earliest to the latest;
    /// notes of the same instant stand in the order in which they were made.
    pub fn list_for(&self, todo_id: i32) -> (list: Vec<ProgressNote>)
        requires
            self.wf(),
        ensures
            is_progress_list(self@, todo_id, list@),
    {
        let n = self.notes.len();
        let mut keys: Vec<Option<i64>> = Vec::new();
        let mut i: usize = 0;
        while i < n
            invariant
                n == self.notes.len(),
                i <= n,
                keys.len() == i,
                forall|j: int|
                    0 <= j < i ==> (#[trigger] keys[j]) == if self.notes[j].todo_id == todo_id {
                        Some(self.notes[j].made_at@ as i64)
                    } else {
                        None
                    },
            decreases n - i,
        {
            if self.notes[i].todo_id == todo_id {
                keys.push(Some(self.notes[i].made_at.micros()));
            } else {
                keys.push(None);
            }
            i = i + 1;
        }
        let picked = select_in_order(&keys);
        let mut list: Vec<ProgressNote> = Vec::new();
        let mut k: usize = 0;
        while k < picked.len()
            invariant
                k <= picked.len(),
                list.len() == k,
                keys.len() == self.notes.len(),
                is_selection(keys@, picked@),
                forall|j: int|
                    0 <= j < k ==> (#[trigger] list[j]) == self.notes[picked[j] as int].shown(),
            decreases picked.len() - k,
        {
            assert(picked[k as int] < keys.len());
            list.push(self.notes[picked[k]].to_note());
            k = k + 1;
        }
        proof {
            let notes = self@;
            assert forall|j: int| 0 <= j < list.len() implies shows_note(
                notes,
                todo_id,
                #[trigger] list[j],
            ) by {
                let p = picked[j] as int;
                assert(keys[p] is Some);
                assert(notes[p].todo_id == todo_id && notes[p].shown() == list[j]);
            }
            assert forall|p: int| 0 <= p < notes.len() && (#[trigger] notes[p]).todo_id
                == todo_id implies list@.contains(notes[p].shown()) by {
                assert(keys[p] is Some);
                assert(lists(picked@, p));
                let j = choose|j: int| 0 <= j < picked.len() && picked[j] == p;
                assert(list[j] == notes[p].shown());
            }
            assert forall|a: int, b: int| 0 <= a < b < list.len() implies {
                ||| (#[trigger] list[a]).made_at@ < (#[trigger] list[b]).made_at@
                ||| list[a].made_at@ == list[b].made_at@ && list[a].progress_id
                    < list[b].progress_id
            } by {
                let x = picked[a] as int;
                let y = picked[b] as int;
                assert(comes_first(keys@, x, y));
                assert(keys[x] is Some && keys[y] is Some);
                notes[x].made_at.lemma_fits();
                notes[y].made_at.lemma_fits();
                if x < y {
                    assert(notes[x].progress_id < notes[y].progress_id);
                }
            }
        }
        list
    }
}

} // verus!
