//! The store: tasks in the order in which they were added, and the number
//! that the next task will get.
//!
//! Numbers are handed out in rising order and never again, not even after a
//! task was deleted. A store that was only ever changed by adding, completing
//! and deleting is therefore *ordered*: the numbers of its tasks rise along
//! the list and lie below the next number. A store read from text is whatever
//! the text says.

use vstd::prelude::*;
use crate::tasks::task::{Task, TaskStatus, TaskView};
use crate::text::chars::same_text;
use crate::runs::{run_length, lemma_run_length_found, lemma_run_length_is_maximal};

verus! {

/// Why an operation on the store did nothing.
#[derive(Debug, Clone, Copy, PartialEq, Eq, Structural)]
pub enum TaskError {
    /// No task has the number that was asked for.
    NotFound,
    /// The text to load a store from has no lines at all.
    MalformedFile,
}

/// The words in which an error is told to the user.
pub open spec fn error_message(error: TaskError) -> Seq<char> {
    match error {
        TaskError::NotFound => "Task not found"@,
        TaskError::MalformedFile => "File is empty"@,
    }
}

impl TaskError {
    /// The words in which this error is told to the user.
    pub fn message(&self) -> (text: &'static str)
        ensures
            text@ == error_message(*self),
    {
        match self {
            TaskError::NotFound => "Task not found",
            TaskError::MalformedFile => "File is empty",
        }
    }
}

/// How many tasks a store holds, in all and by status.
#[derive(Debug, Clone, Copy, PartialEq, Eq, Structural)]
pub struct TaskStats {
    pub total: usize,
    pub pending: usize,
    pub completed: usize,
}

/// The tasks and the counter of a store.
pub struct TaskManager {
    tasks: Vec<Task>,
    next_id: u32,
}

/// What a store holds, as mathematical values.
pub struct StoreView {
    pub tasks: Seq<TaskView>,
    pub next_id: u32,
}

/// The views of a sequence of tasks, task by task.
pub open spec fn task_views(tasks: Seq<Task>) -> Seq<TaskView> {
    Seq::new(tasks.len(), |i: int| tasks[i]@)
}

/// The views of a sequence of borrowed tasks, task by task.
pub open spec fn borrowed_views(tasks: Seq<&Task>) -> Seq<TaskView> {
    Seq::new(tasks.len(), |i: int| tasks[i]@)
}

/// The property of having another number than `id`.
pub open spec fn other_id(id: u32) -> spec_fn(TaskView) -> bool {
    |task: TaskView| task.id != id
}

/// The property of having the status `status`.
pub open spec fn has_status(status: TaskStatus) -> spec_fn(TaskView) -> bool {
    |task: TaskView| task.status == status
}

/// The property of being due on `date`. A task without a due date is due on
/// no date.
pub open spec fn is_due(date: Seq<char>) -> spec_fn(TaskView) -> bool {
    |task: TaskView| task.due_date == Some(date)
}

impl StoreView {
    /// The index of the first task with the number `id`, or the number of
    /// tasks where none has it.
    pub open spec fn position(self, id: u32) -> int {
        run_length(self.tasks, other_id(id))
    }

    /// Whether some task has the number `id`.
    pub open spec fn holds(self, id: u32) -> bool {
        self.position(id) < self.tasks.len()
    }

    /// Whether no task after the first one with the number `id` has that
    /// number too.
    pub open spec fn occurs_once_at_most(self, id: u32) -> bool {
        forall|j: int| self.position(id) < j < self.tasks.len() ==> self.tasks[j].id != id
    }

    /// Whether the numbers rise along the list and lie below the next number.
    pub open spec fn is_ordered(self) -> bool {
        &&& forall|i: int, j: int|
            0 <= i < j < self.tasks.len() ==> self.tasks[i].id < self.tasks[j].id
        &&& forall|i: int| 0 <= i < self.tasks.len() ==> self.tasks[i].id < self.next_id
    }

    /// The task that the store would add for the given texts.
    pub open spec fn new_task(
        self,
        title: Seq<char>,
        description: Seq<char>,
        due_date: Option<Seq<char>>,
    ) -> TaskView {
        TaskView { id: self.next_id, title, description, due_date, status: TaskStatus::Pending }
    }

    /// The store after a task with the given texts was added.
    pub open spec fn with_added(
        self,
        title: Seq<char>,
        description: Seq<char>,
        due_date: Option<Seq<char>>,
    ) -> StoreView {
        StoreView {
            tasks: self.tasks.push(self.new_task(title, description, due_date)),
            next_id: (self.next_id + 1) as u32,
        }
    }

    /// The store after the first task with the number `id` was marked as
    /// completed; the store itself where no task has that number.
    pub open spec fn with_completed(self, id: u32) -> StoreView {
        let k = self.position(id);
        if 0 <= k < self.tasks.len() {
            StoreView {
                tasks: self.tasks.update(
                    k,
                    TaskView { status: TaskStatus::Completed, ..self.tasks[k] },
                ),
                next_id: self.next_id,
            }
        } else {
            self
        }
    }

    /// The store after the first task with the number `id` was removed; the
    /// store itself where no task has that number.
    pub open spec fn without(self, id: u32) -> StoreView {
        let k = self.position(id);
        if 0 <= k < self.tasks.len() {
            StoreView { tasks: self.tasks.remove(k), next_id: self.next_id }
        } else {
            self
        }
    }
}

/// The position of a number lies within the list or at its end; no task
/// before it has the number, and the task at it, if there is one, has it.
pub proof fn lemma_position(store: StoreView, id: u32)
    ensures
        0 <= store.position(id) <= store.tasks.len(),
        forall|j: int| 0 <= j < store.position(id) ==> (#[trigger] store.tasks[j]).id != id,
        store.holds(id) ==> store.tasks[store.position(id)].id == id,
        !store.holds(id) <==> forall|j: int|
            0 <= j < store.tasks.len() ==> (#[trigger] store.tasks[j]).id != id,
{
    lemma_run_length_is_maximal(store.tasks, other_id(id));
    assert forall|j: int| 0 <= j < store.position(id) implies (#[trigger] store.tasks[j]).id
        != id by {
        assert(other_id(id)(store.tasks[j]));
    }
}

impl View for TaskManager {
    type V = StoreView;

    closed spec fn view(&self) -> StoreView {
        StoreView { tasks: task_views(self.tasks@), next_id: self.next_id }
    }
}

impl TaskManager {
    /// An empty store, whose first task will get the number 1.
    pub fn new() -> (store: TaskManager)
        ensures
            store@.tasks == Seq::<TaskView>::empty(),
            store@.next_id == 1,
            store@.is_ordered(),
    {
        let store = TaskManager { tasks: Vec::new(), next_id: 1 };
        assert(store@.tasks == Seq::<TaskView>::empty());
        store
    }

    /// A store with the given tasks and counter, taken as they are. This is
    /// how a store is made from what a text says.
    pub(crate) fn from_parts(tasks: Vec<Task>, next_id: u32) -> (store: TaskManager)
        ensures
            store@.tasks == task_views(tasks@),
            store@.next_id == next_id,
    {
        TaskManager { tasks, next_id }
    }

    /// The tasks, in the order in which they are shown.
    pub fn tasks(&self) -> (tasks: &Vec<Task>)
        ensures
            task_views(tasks@) == self@.tasks,
    {
        &self.tasks
    }

    /// The number that the next task will get.
    pub fn next_id(&self) -> (next_id: u32)
        ensures
            next_id == self@.next_id,
    {
        self.next_id
    }

    /// Adds a pending task with the given texts at the end of the list, gives
    /// it the next number, and returns it.
    pub fn add_task(
        &mut self,
        title: String,
        description: String,
        due_date: Option<String>,
    ) -> (task: &Task)
        requires
            old(self)@.next_id < u32::MAX,
        ensures
            task@ == old(self)@.new_task(
                title@,
                description@,
                match due_date {
                    Some(date) => Some(date@),
                    None => None,
                },
            ),
            task@.id == old(self)@.next_id,
            final(self)@.next_id == old(self)@.next_id + 1,
            final(self)@ == old(self)@.with_added(
                title@,
                description@,
                match due_date {
                    Some(date) => Some(date@),
                    None => None,
                },
            ),
            old(self)@.is_ordered() ==> final(self)@.is_ordered() && !old(self)@.holds(task@.id),
    {
        let task = Task {
            id: self.next_id,
            title,
            description,
            due_date,
            status: TaskStatus::Pending,
        };
        proof {
            lemma_position(old(self)@, task.id);
            assert(task_views(self.tasks@.push(task)) == task_views(self.tasks@).push(task@));
        }
        self.next_id += 1;
        self.tasks.push(task);
        let n = self.tasks.len();
        &self.tasks[n - 1]
    }

    /// The index of the first task with the number `id`, if there is one.
    fn index_of(&self, id: u32) -> (index: Option<usize>)
        ensures
            match index {
                Some(k) => k == self@.position(id) && self@.holds(id) && k < self.tasks.len(),
                None => !self@.holds(id),
            },
    {
        let mut i: usize = 0;
        while i < self.tasks.len()
            invariant
                i <= self.tasks.len(),
                forall|j: int| 0 <= j < i ==> other_id(id)(#[trigger] self@.tasks[j]),
            decreases self.tasks.len() - i,
        {
            if self.tasks[i].id == id {
                proof {
                    lemma_run_length_found(self@.tasks, other_id(id), i as int);
                }
                return Some(i);
            }
            i += 1;
        }
        proof {
            lemma_run_length_found(self@.tasks, other_id(id), i as int);
        }
        None
    }

    /// The first task with the number `id`, if there is one, for changing in
    /// place: the store afterwards holds whatever is left there. Only the
    /// store itself changes a task, so this stays within the store.
    fn find_task_mut(&mut self, id: u32) -> (found: Option<&mut Task>)
        ensures
            found is Some <==> old(self)@.holds(id),
            found matches Some(task) ==> {
                &&& task@ == old(self)@.tasks[old(self)@.position(id)]
                &&& final(self)@.tasks == old(self)@.tasks.update(
                    old(self)@.position(id),
                    final(task)@,
                )
                &&& final(self)@.next_id == old(self)@.next_id
            },
            found is None ==> final(self)@ == old(self)@,
    {
        match self.index_of(id) {
            Some(k) => {
                let task = &mut self.tasks[k];
                Some(task)
            },
            None => None,
        }
    }

    /// The first task with the number `id`, if there is one.
    pub fn find_task(&self, id: u32) -> (found: Option<&Task>)
        ensures
            found is Some <==> self@.holds(id),
            found matches Some(task) ==> task@ == self@.tasks[self@.position(id)],
    {
        match self.index_of(id) {
            Some(k) => Some(&self.tasks[k]),
            None => None,
        }
    }

    /// Marks the first task with the number `id` as completed and returns it.
    /// Where no task has that number, nothing changes.
    pub fn complete_task(&mut self, id: u32) -> (done: Result<&Task, TaskError>)
        ensures
            done is Ok <==> old(self)@.holds(id),
            done matches Ok(task) ==> task@ == final(self)@.tasks[old(self)@.position(id)],
            done matches Err(error) ==> error == TaskError::NotFound && final(self)@ == old(
                self,
            )@,
            final(self)@ == old(self)@.with_completed(id),
            final(self)@.tasks.len() == old(self)@.tasks.len(),
            final(self)@.next_id == old(self)@.next_id,
            old(self)@.is_ordered() ==> final(self)@.is_ordered(),
    {
        proof {
            lemma_position(old(self)@, id);
        }
        match self.find_task_mut(id) {
            Some(task) => {
                task.status = TaskStatus::Completed;
                Ok(task)
            },
            None => Err(TaskError::NotFound),
        }
    }

    /// Removes the first task with the number `id`; the tasks after it move
    /// up. Where no task has that number, nothing changes.
    pub fn delete_task(&mut self, id: u32) -> (done: Result<(), TaskError>)
        ensures
            done is Ok <==> old(self)@.holds(id),
            done matches Err(error) ==> error == TaskError::NotFound && final(self)@ == old(
                self,
            )@,
            final(self)@ == old(self)@.without(id),
            done is Ok ==> final(self)@.tasks.len() == old(self)@.tasks.len() - 1,
            final(self)@.next_id == old(self)@.next_id,
            old(self)@.is_ordered() ==> final(self)@.is_ordered() && !final(self)@.holds(id),
    {
        proof {
            lemma_position(old(self)@, id);
        }
        match self.index_of(id) {
            Some(k) => {
                self.tasks.remove(k);
                proof {
                    assert(task_views(self.tasks@) == old(self)@.tasks.remove(k as int));
                    if old(self)@.is_ordered() {
                        lemma_without_keeps_order(old(self)@, id);
                        lemma_delete_twice(old(self)@, id);
                    }
                }
                Ok(())
            },
            None => Err(TaskError::NotFound),
        }
    }

    /// The tasks with the status `status`, in the order of the list.
    pub fn filter_by_status(&self, status: &TaskStatus) -> (found: Vec<&Task>)
        ensures
            borrowed_views(found@) == self@.tasks.filter(has_status(*status)),
    {
        let mut found: Vec<&Task> = Vec::new();
        let mut i: usize = 0;
        assert(self@.tasks.take(0).filter(has_status(*status)) == Seq::<TaskView>::empty()) by {
            reveal(Seq::filter);
        }
        while i < self.tasks.len()
            invariant
                i <= self.tasks.len(),
                self@.tasks == task_views(self.tasks@),
                borrowed_views(found@) == self@.tasks.take(i as int).filter(has_status(*status)),
            decreases self.tasks.len() - i,
        {
            let task = &self.tasks[i];
            proof {
                lemma_filter_next(self@.tasks, has_status(*status), i as int);
            }
            if task.status == *status {
                assert(borrowed_views(found@.push(task)) == borrowed_views(found@).push(task@));
                found.push(task);
            }
            i += 1;
        }
        assert(self@.tasks.take(i as int) == self@.tasks);
        found
    }

    /// The tasks that are due on `due_date`, in the order of the list. The
    /// date is compared as text, character by character.
    pub fn filter_by_due_date(&self, due_date: &str) -> (found: Vec<&Task>)
        ensures
            borrowed_views(found@) == self@.tasks.filter(is_due(due_date@)),
    {
        let mut found: Vec<&Task> = Vec::new();
        let mut i: usize = 0;
        assert(self@.tasks.take(0).filter(is_due(due_date@)) == Seq::<TaskView>::empty()) by {
            reveal(Seq::filter);
        }
        while i < self.tasks.len()
            invariant
                i <= self.tasks.len(),
                self@.tasks == task_views(self.tasks@),
                borrowed_views(found@) == self@.tasks.take(i as int).filter(is_due(due_date@)),
            decreases self.tasks.len() - i,
        {
            let task = &self.tasks[i];
            proof {
                lemma_filter_next(self@.tasks, is_due(due_date@), i as int);
            }
            let due = match &task.due_date {
                Some(date) => same_text(date.as_str(), due_date),
                None => false,
            };
            if due {
                assert(borrowed_views(found@.push(task)) == borrowed_views(found@).push(task@));
                found.push(task);
            }
            i += 1;
        }
        assert(self@.tasks.take(i as int) == self@.tasks);
        found
    }

    /// How many tasks the store holds, and how many of them are pending and
    /// completed.
    pub fn generate_stats(&self) -> (stats: TaskStats)
        ensures
            stats.total == self@.tasks.len(),
            stats.pending == self@.tasks.filter(has_status(TaskStatus::Pending)).len(),
            stats.completed == self@.tasks.filter(has_status(TaskStatus::Completed)).len(),
            stats.pending + stats.completed == stats.total,
    {
        let mut pending: usize = 0;
        let mut completed: usize = 0;
        let mut i: usize = 0;
        assert(self@.tasks.take(0).filter(has_status(TaskStatus::Pending)) == Seq::<
            TaskView,
        >::empty() && self@.tasks.take(0).filter(has_status(TaskStatus::Completed)) == Seq::<
            TaskView,
        >::empty()) by {
            reveal(Seq::filter);
        }
        while i < self.tasks.len()
            invariant
                i <= self.tasks.len(),
                self@.tasks == task_views(self.tasks@),
                pending == self@.tasks.take(i as int).filter(
                    has_status(TaskStatus::Pending),
                ).len(),
                completed == self@.tasks.take(i as int).filter(
                    has_status(TaskStatus::Completed),
                ).len(),
                pending + completed == i,
            decreases self.tasks.len() - i,
        {
            proof {
                lemma_filter_next(self@.tasks, has_status(TaskStatus::Pending), i as int);
                lemma_filter_next(self@.tasks, has_status(TaskStatus::Completed), i as int);
            }
            match self.tasks[i].status {
                TaskStatus::Pending => {
                    pending += 1;
                },
                TaskStatus::Completed => {
                    completed += 1;
                },
            }
            i += 1;
        }
        assert(self@.tasks.take(i as int) == self@.tasks);
        TaskStats { total: self.tasks.len(), pending, completed }
    }
}

/// In an ordered store no two tasks have the same number.
pub proof fn lemma_ordered_numbers_differ(store: StoreView)
    requires
        store.is_ordered(),
    ensures
        forall|i: int, j: int|
            0 <= i < store.tasks.len() && 0 <= j < store.tasks.len() && i != j
                ==> store.tasks[i].id != store.tasks[j].id,
        forall|id: u32| store.occurs_once_at_most(id),
{
    assert forall|i: int, j: int|
        0 <= i < store.tasks.len() && 0 <= j < store.tasks.len() && i != j implies store.tasks[i].id
        != store.tasks[j].id by {
        if i < j {
            assert(store.tasks[i].id < store.tasks[j].id);
        } else {
            assert(store.tasks[j].id < store.tasks[i].id);
        }
    }
    assert forall|id: u32| store.occurs_once_at_most(id) by {
        lemma_position(store, id);
    }
}

/// A task that was just added is found under its number, and under no
/// number that the ordered store held before.
pub proof fn lemma_added_task_is_found(
    store: StoreView,
    title: Seq<char>,
    description: Seq<char>,
    due_date: Option<Seq<char>>,
)
    requires
        store.is_ordered(),
        store.next_id < u32::MAX,
    ensures
        !store.holds(store.next_id),
        store.with_added(title, description, due_date).is_ordered(),
        store.with_added(title, description, due_date).position(store.next_id)
            == store.tasks.len(),
        store.with_added(title, description, due_date).holds(store.next_id),
{
    let after = store.with_added(title, description, due_date);
    lemma_position(store, store.next_id);
    assert forall|j: int| 0 <= j < store.tasks.len() implies other_id(store.next_id)(
        #[trigger] after.tasks[j],
    ) by {
        assert(after.tasks[j] == store.tasks[j]);
    }
    lemma_run_length_found(after.tasks, other_id(store.next_id), store.tasks.len() as int);
}

/// Removing a task keeps an ordered store ordered.
pub proof fn lemma_without_keeps_order(store: StoreView, id: u32)
    requires
        store.is_ordered(),
    ensures
        store.without(id).is_ordered(),
        store.occurs_once_at_most(id),
{
    lemma_position(store, id);
}

/// Where a number occurs at most once, it is gone once its task was removed:
/// removing it a second time finds nothing and changes nothing.
pub proof fn lemma_delete_twice(store: StoreView, id: u32)
    requires
        store.occurs_once_at_most(id),
    ensures
        !store.without(id).holds(id),
        store.without(id).without(id) == store.without(id),
{
    lemma_position(store, id);
    let after = store.without(id);
    let k = store.position(id);
    if store.holds(id) {
        assert forall|j: int| 0 <= j < after.tasks.len() implies (#[trigger] after.tasks[j]).id
            != id by {
            if j < k {
                assert(after.tasks[j] == store.tasks[j]);
            } else {
                assert(after.tasks[j] == store.tasks[j + 1]);
            }
        }
    }
    lemma_position(after, id);
}

/// Filtering one item more either appends that item or changes nothing.
pub proof fn lemma_filter_next(tasks: Seq<TaskView>, keep: spec_fn(TaskView) -> bool, i: int)
    requires
        0 <= i < tasks.len(),
    ensures
        tasks.take(i + 1).filter(keep) == if keep(tasks[i]) {
            tasks.take(i).filter(keep).push(tasks[i])
        } else {
            tasks.take(i).filter(keep)
        },
        tasks.take(i).filter(keep).len() <= i,
{
    reveal(Seq::filter);
    assert(tasks.take(i + 1).drop_last() == tasks.take(i));
    tasks.take(i).lemma_filter_len(keep);
}

} // verus!
