//! Carrying out a command: what becomes of the store, and what the user is
//! to be told or what is to be done with a file.
//!
//! The store never touches a file itself. For `save` it hands out the text
//! to write, and for `load` it names the file whose text is then to be given
//! to [`TaskManager::load`].

use vstd::prelude::*;
use crate::tasks::command::{Command, CommandView, interpret};
use crate::tasks::manager::{StoreView, TaskError, TaskManager, TaskStats, borrowed_views, has_status, lemma_position, task_views};
use crate::tasks::storage::encode_store;
use crate::tasks::task::{Task, TaskStatus, TaskView};

verus! {

/// Which tasks a list shows.
#[derive(Debug, Clone, Copy, PartialEq, Eq, Structural)]
pub enum Listing {
    All,
    Pending,
    Completed,
}

/// What came of a command.
#[derive(Debug, PartialEq, Eq)]
pub enum Reply {
    /// A task was added and got the number `id`.
    Added { id: u32 },
    /// The tasks to show.
    Tasks { listing: Listing, tasks: Vec<Task> },
    /// The task with the number `id` is now completed.
    Completed { id: u32 },
    /// The task with the number `id` is gone.
    Deleted { id: u32 },
    /// The command could not be carried out.
    Failed { error: TaskError },
    /// `text` is to be written to the file `filename`.
    Save { filename: String, text: String },
    /// The text of the file `filename` is to be loaded.
    Load { filename: String },
    /// The counts to show.
    Stats { stats: TaskStats },
    /// The list of commands is to be shown.
    Help,
    /// The session is over.
    Quit,
    /// The line was no command.
    Unknown,
}

/// What a reply holds, as mathematical values.
pub enum ReplyView {
    Added { id: u32 },
    Tasks { listing: Listing, tasks: Seq<TaskView> },
    Completed { id: u32 },
    Deleted { id: u32 },
    Failed { error: TaskError },
    Save { filename: Seq<char>, text: Seq<char> },
    Load { filename: Seq<char> },
    Stats { total: nat, pending: nat, completed: nat },
    Help,
    Quit,
    Unknown,
}

impl View for Reply {
    type V = ReplyView;

    open spec fn view(&self) -> ReplyView {
        match self {
            Reply::Added { id } => ReplyView::Added { id: *id },
            Reply::Tasks { listing, tasks } => ReplyView::Tasks {
                listing: *listing,
                tasks: task_views(tasks@),
            },
            Reply::Completed { id } => ReplyView::Completed { id: *id },
            Reply::Deleted { id } => ReplyView::Deleted { id: *id },
            Reply::Failed { error } => ReplyView::Failed { error: *error },
            Reply::Save { filename, text } => ReplyView::Save { filename: filename@, text: text@ },
            Reply::Load { filename } => ReplyView::Load { filename: filename@ },
            Reply::Stats { stats } => ReplyView::Stats {
                total: stats.total as nat,
                pending: stats.pending as nat,
                completed: stats.completed as nat,
            },
            Reply::Help => ReplyView::Help,
            Reply::Quit => ReplyView::Quit,
            Reply::Unknown => ReplyView::Unknown,
        }
    }
}

/// The tasks of a store with the given status, in the order of the list.
pub open spec fn tasks_with(store: StoreView, status: TaskStatus) -> Seq<TaskView> {
    store.tasks.filter(has_status(status))
}

/// The store after a command was carried out. Only adding, completing and
/// deleting change it.
pub open spec fn store_after(store: StoreView, command: CommandView) -> StoreView {
    match command {
        CommandView::Add { title, description, due_date } => store.with_added(
            title,
            description,
            due_date,
        ),
        CommandView::Complete { id } => store.with_completed(id),
        CommandView::Delete { id } => store.without(id),
        _ => store,
    }
}

/// The reply to a command that is carried out on a store.
pub open spec fn reply_to(store: StoreView, command: CommandView) -> ReplyView {
    match command {
        CommandView::Add { title, description, due_date } => ReplyView::Added {
            id: store.next_id,
        },
        CommandView::List => ReplyView::Tasks { listing: Listing::All, tasks: store.tasks },
        CommandView::ListPending => ReplyView::Tasks {
            listing: Listing::Pending,
            tasks: tasks_with(store, TaskStatus::Pending),
        },
        CommandView::ListCompleted => ReplyView::Tasks {
            listing: Listing::Completed,
            tasks: tasks_with(store, TaskStatus::Completed),
        },
        CommandView::Complete { id } => if store.holds(id) {
            ReplyView::Completed { id }
        } else {
            ReplyView::Failed { error: TaskError::NotFound }
        },
        CommandView::Delete { id } => if store.holds(id) {
            ReplyView::Deleted { id }
        } else {
            ReplyView::Failed { error: TaskError::NotFound }
        },
        CommandView::Save { filename } => ReplyView::Save { filename, text: encode_store(store) },
        CommandView::Load { filename } => ReplyView::Load { filename },
        CommandView::Stats => ReplyView::Stats {
            total: store.tasks.len(),
            pending: tasks_with(store, TaskStatus::Pending).len(),
            completed: tasks_with(store, TaskStatus::Completed).len(),
        },
        CommandView::Help => ReplyView::Help,
        CommandView::Quit => ReplyView::Quit,
        CommandView::Unknown => ReplyView::Unknown,
    }
}

/// A line of input that draws a complaint changes nothing in the store, and
/// neither does a line that is no command at all.
pub proof fn lemma_bad_input_changes_nothing(store: StoreView, input: Seq<char>)
    requires
        interpret(input).1 is Some || interpret(input).0 is Unknown,
    ensures
        interpret(input).0 is Unknown,
        store_after(store, interpret(input).0) == store,
        reply_to(store, interpret(input).0) is Unknown,
{
}

/// Whether a command can be carried out on a store: only adding asks for
/// something, namely a counter that can still be raised.
pub open spec fn can_execute(store: StoreView, command: CommandView) -> bool {
    command is Add ==> store.next_id < u32::MAX
}

/// No command lowers the counter, and only adding raises it, by one.
pub proof fn lemma_counter_never_falls(store: StoreView, command: CommandView)
    requires
        can_execute(store, command),
    ensures
        store_after(store, command).next_id >= store.next_id,
        store_after(store, command).next_id == if command is Add {
            store.next_id + 1
        } else {
            store.next_id as int
        },
{
}

/// Whatever command is carried out on an ordered store, the store stays
/// ordered: numbers rise along the list and lie below the counter.
pub proof fn lemma_commands_keep_order(store: StoreView, command: CommandView)
    requires
        store.is_ordered(),
        can_execute(store, command),
    ensures
        store_after(store, command).is_ordered(),
{
    match command {
        CommandView::Complete { id } => {
            lemma_position(store, id);
        },
        CommandView::Delete { id } => {
            lemma_position(store, id);
        },
        _ => {},
    }
}

/// Owned copies of borrowed tasks, in the same order.
fn copies_of(tasks: &Vec<&Task>) -> (copies: Vec<Task>)
    ensures
        task_views(copies@) == borrowed_views(tasks@),
{
    let mut copies: Vec<Task> = Vec::new();
    let mut i: usize = 0;
    while i < tasks.len()
        invariant
            i <= tasks.len(),
            task_views(copies@) == borrowed_views(tasks@).take(i as int),
        decreases tasks.len() - i,
    {
        let copy = tasks[i].clone();
        assert(task_views(copies@.push(copy)) == task_views(copies@).push(copy@));
        copies.push(copy);
        i += 1;
    }
    assert(borrowed_views(tasks@).take(i as int) == borrowed_views(tasks@));
    copies
}

/// Owned copies of tasks, in the same order.
fn copies(tasks: &Vec<Task>) -> (copies: Vec<Task>)
    ensures
        task_views(copies@) == task_views(tasks@),
{
    let mut copies: Vec<Task> = Vec::new();
    let mut i: usize = 0;
    while i < tasks.len()
        invariant
            i <= tasks.len(),
            task_views(copies@) == task_views(tasks@).take(i as int),
        decreases tasks.len() - i,
    {
        let copy = tasks[i].clone();
        assert(task_views(copies@.push(copy)) == task_views(copies@).push(copy@));
        copies.push(copy);
        i += 1;
    }
    assert(task_views(tasks@).take(i as int) == task_views(tasks@));
    copies
}

impl TaskManager {
    /// Carries out `command` on the store and says what came of it.
    pub fn execute(&mut self, command: Command) -> (reply: Reply)
        requires
            can_execute(old(self)@, command@),
        ensures
            final(self)@ == store_after(old(self)@, command@),
            reply@ == reply_to(old(self)@, command@),
    {
        match command {
            Command::Add { title, description, due_date } => {
                let id = self.add_task(title, description, due_date).id;
                Reply::Added { id }
            },
            Command::List => Reply::Tasks { listing: Listing::All, tasks: copies(self.tasks()) },
            Command::ListPending => {
                let found = self.filter_by_status(&TaskStatus::Pending);
                Reply::Tasks { listing: Listing::Pending, tasks: copies_of(&found) }
            },
            Command::ListCompleted => {
                let found = self.filter_by_status(&TaskStatus::Completed);
                Reply::Tasks { listing: Listing::Completed, tasks: copies_of(&found) }
            },
            Command::Complete { id } => match self.complete_task(id) {
                Ok(_) => Reply::Completed { id },
                Err(error) => Reply::Failed { error },
            },
            Command::Delete { id } => match self.delete_task(id) {
                Ok(()) => Reply::Deleted { id },
                Err(error) => Reply::Failed { error },
            },
            Command::Save { filename } => Reply::Save { filename, text: self.serialize() },
            Command::Load { filename } => Reply::Load { filename },
            Command::Stats => Reply::Stats { stats: self.generate_stats() },
            Command::Help => Reply::Help,
            Command::Quit => Reply::Quit,
            Command::Unknown => Reply::Unknown,
        }
    }
}

} // verus!
