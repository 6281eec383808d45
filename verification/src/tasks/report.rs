//! What the user gets to read: tasks, lists, counts, and the outcome of each
//! command, as text that ends with a line feed.

use vstd::prelude::*;
use vstd::string::StringExecFns;
use crate::tasks::command::{InputError, complaint_message};
use crate::tasks::dispatch::{Listing, Reply, ReplyView};
use crate::tasks::manager::{TaskError, TaskManager, TaskStats, error_message, task_views};
use crate::tasks::task::{Task, TaskView, status_name};
use crate::text::decimal::{decimal, push_decimal};

verus! {

/// The line that shows a due date; nothing for a task without one.
pub open spec fn due_line(due_date: Option<Seq<char>>) -> Seq<char> {
    match due_date {
        Some(date) => "Due date: "@ + date + "\n"@,
        None => Seq::empty(),
    }
}

/// A task as it is shown: number and title, status, description, the due
/// date if it has one, and an empty line.
pub open spec fn task_card(task: TaskView) -> Seq<char> {
    "Task #"@ + decimal(task.id as nat) + ": "@ + task.title + "\nStatus: "@ + status_name(
        task.status,
    ) + "\nDescription: "@ + task.description + "\n"@ + due_line(task.due_date) + "\n"@
}

/// The cards of the given tasks, one after the other.
pub open spec fn task_cards(tasks: Seq<TaskView>) -> Seq<char>
    decreases tasks.len(),
{
    if tasks.len() == 0 {
        Seq::empty()
    } else {
        task_cards(tasks.drop_last()) + task_card(tasks.last())
    }
}

/// The heading of a list, with the rule under it.
pub open spec fn listing_heading(listing: Listing) -> Seq<char> {
    match listing {
        Listing::All => "Task List:\n----------\n"@,
        Listing::Pending => "Pending Tasks:\n--------------\n"@,
        Listing::Completed => "Completed Tasks:\n----------------\n"@,
    }
}

/// What is said in place of a list without tasks.
pub open spec fn listing_empty(listing: Listing) -> Seq<char> {
    match listing {
        Listing::All => "No tasks found.\n"@,
        Listing::Pending => "No pending tasks found.\n"@,
        Listing::Completed => "No completed tasks found.\n"@,
    }
}

/// A list as it is shown: its heading and the cards of its tasks, or a
/// sentence that says that there are none.
pub open spec fn listing_text(listing: Listing, tasks: Seq<TaskView>) -> Seq<char> {
    if tasks.len() == 0 {
        listing_empty(listing)
    } else {
        listing_heading(listing) + task_cards(tasks)
    }
}

/// The counts as they are shown.
pub open spec fn stats_text(total: nat, pending: nat, completed: nat) -> Seq<char> {
    "Task Statistics:\n----------------\nTotal tasks: "@ + decimal(total) + "\nPending tasks: "@
        + decimal(pending) + "\nCompleted tasks: "@ + decimal(completed) + "\n\n"@
}

/// The list of commands as it is shown.
pub open spec fn help_text() -> Seq<char> {
    "Task Manager - Available Commands:\n\
----------------------------------\n\
add <title> <description> [due_date] - Add a new task\n\
list - List all tasks\n\
pending - List pending tasks\n\
completed - List completed tasks\n\
complete <id> - Mark a task as completed\n\
delete <id> - Delete a task\n\
save <filename> - Save tasks to a file\n\
load <filename> - Load tasks from a file\n\
stats - Show task statistics\n\
help - Display this help message\n\
quit - Exit the program\n\
\n"@
}

/// How an error is reported.
pub open spec fn error_text(message: Seq<char>) -> Seq<char> {
    "Error: "@ + message + "\n"@
}

/// What is said at once in reply to a command. Nothing is said yet where a
/// file has to be written or read first.
pub open spec fn reply_text(reply: ReplyView) -> Option<Seq<char>> {
    match reply {
        ReplyView::Added { id } => Some("Task added with ID: "@ + decimal(id as nat) + "\n"@),
        ReplyView::Tasks { listing, tasks } => Some(listing_text(listing, tasks)),
        ReplyView::Completed { id } => Some(
            "Task #"@ + decimal(id as nat) + " marked as completed\n"@,
        ),
        ReplyView::Deleted { id } => Some("Task #"@ + decimal(id as nat) + " deleted\n"@),
        ReplyView::Failed { error } => Some(error_text(error_message(error))),
        ReplyView::Save { filename, text } => None,
        ReplyView::Load { filename } => None,
        ReplyView::Stats { total, pending, completed } => Some(
            stats_text(total, pending, completed),
        ),
        ReplyView::Help => Some(help_text()),
        ReplyView::Quit => Some("Goodbye!\n"@),
        ReplyView::Unknown => Some("Unknown command. Type 'help' for a list of commands.\n"@),
    }
}

/// What is said after a store was written to a file.
pub open spec fn saved_text(filename: Seq<char>) -> Seq<char> {
    "Tasks saved to '"@ + filename + "'\n"@
}

/// What is said after a store was loaded from a file.
pub open spec fn loaded_text(count: nat, filename: Seq<char>) -> Seq<char> {
    "Loaded "@ + decimal(count) + " tasks from '"@ + filename + "'\n"@
}

/// What is said when a store could not be written.
pub open spec fn save_failed_text(reason: Seq<char>) -> Seq<char> {
    "Error saving to file: "@ + reason + "\n"@
}

/// What is said when a store could not be loaded.
pub open spec fn load_failed_text(reason: Seq<char>) -> Seq<char> {
    "Error loading from file: "@ + reason + "\n"@
}

/// Appends the cards of `tasks` to `out`.
fn push_cards(out: &mut String, tasks: &Vec<Task>)
    ensures
        final(out)@ == old(out)@ + task_cards(task_views(tasks@)),
{
    let ghost all = task_views(tasks@);
    let mut i: usize = 0;
    assert(task_cards(all.take(0)) == Seq::<char>::empty());
    while i < tasks.len()
        invariant
            i <= tasks.len(),
            all == task_views(tasks@),
            out@ == old(out)@ + task_cards(all.take(i as int)),
        decreases tasks.len() - i,
    {
        let card = tasks[i].display();
        out.append(card.as_str());
        proof {
            assert(all.take(i + 1).drop_last() == all.take(i as int));
            assert(all.take(i + 1).last() == tasks[i as int]@);
        }
        i += 1;
    }
    assert(all.take(i as int) == all);
}

/// A list as it is shown.
pub fn listing(which: Listing, tasks: &Vec<Task>) -> (text: String)
    ensures
        text@ == listing_text(which, task_views(tasks@)),
{
    if tasks.len() == 0 {
        return String::from_str(
            match which {
                Listing::All => "No tasks found.\n",
                Listing::Pending => "No pending tasks found.\n",
                Listing::Completed => "No completed tasks found.\n",
            },
        );
    }
    let mut text = String::from_str(
        match which {
            Listing::All => "Task List:\n----------\n",
            Listing::Pending => "Pending Tasks:\n--------------\n",
            Listing::Completed => "Completed Tasks:\n----------------\n",
        },
    );
    push_cards(&mut text, tasks);
    text
}

/// The counts as they are shown.
pub fn stats_report(stats: &TaskStats) -> (text: String)
    ensures
        text@ == stats_text(stats.total as nat, stats.pending as nat, stats.completed as nat),
{
    let mut text = String::from_str("Task Statistics:\n----------------\nTotal tasks: ");
    push_decimal(&mut text, stats.total as u64);
    text.append("\nPending tasks: ");
    push_decimal(&mut text, stats.pending as u64);
    text.append("\nCompleted tasks: ");
    push_decimal(&mut text, stats.completed as u64);
    text.append("\n\n");
    text
}

/// The list of commands as it is shown.
pub fn display_help() -> (text: &'static str)
    ensures
        text@ == help_text(),
{
    "Task Manager - Available Commands:\n\
----------------------------------\n\
add <title> <description> [due_date] - Add a new task\n\
list - List all tasks\n\
pending - List pending tasks\n\
completed - List completed tasks\n\
complete <id> - Mark a task as completed\n\
delete <id> - Delete a task\n\
save <filename> - Save tasks to a file\n\
load <filename> - Load tasks from a file\n\
stats - Show task statistics\n\
help - Display this help message\n\
quit - Exit the program\n\
\n"
}

/// The report of an error with the given message.
pub fn error_report(message: &str) -> (text: String)
    ensures
        text@ == error_text(message@),
{
    let mut text = String::from_str("Error: ");
    text.append(message);
    text.append("\n");
    text
}

/// What is said after a store was written to the file `filename`.
pub fn saved_report(filename: &str) -> (text: String)
    ensures
        text@ == saved_text(filename@),
{
    let mut text = String::from_str("Tasks saved to '");
    text.append(filename);
    text.append("'\n");
    text
}

/// What is said after `count` tasks were loaded from the file `filename`.
pub fn loaded_report(count: usize, filename: &str) -> (text: String)
    ensures
        text@ == loaded_text(count as nat, filename@),
{
    let mut text = String::from_str("Loaded ");
    push_decimal(&mut text, count as u64);
    text.append(" tasks from '");
    text.append(filename);
    text.append("'\n");
    text
}

/// What is said when a store could not be written, for the given reason.
pub fn save_failed_report(reason: &str) -> (text: String)
    ensures
        text@ == save_failed_text(reason@),
{
    let mut text = String::from_str("Error saving to file: ");
    text.append(reason);
    text.append("\n");
    text
}

/// What is said when a store could not be loaded, for the given reason.
pub fn load_failed_report(reason: &str) -> (text: String)
    ensures
        text@ == load_failed_text(reason@),
{
    let mut text = String::from_str("Error loading from file: ");
    text.append(reason);
    text.append("\n");
    text
}

impl InputError {
    /// The report of this complaint.
    pub fn report(&self) -> (text: String)
        ensures
            text@ == error_text(complaint_message(*self)),
    {
        error_report(self.message())
    }
}

impl TaskError {
    /// The report of this error.
    pub fn report(&self) -> (text: String)
        ensures
            text@ == error_text(error_message(*self)),
    {
        error_report(self.message())
    }
}

impl Task {
    /// The task as it is shown.
    pub fn display(&self) -> (text: String)
        ensures
            text@ == task_card(self@),
    {
        let mut text = String::from_str("Task #");
        push_decimal(&mut text, self.id as u64);
        text.append(": ");
        text.append(self.title.as_str());
        text.append("\nStatus: ");
        text.append(self.status.name());
        text.append("\nDescription: ");
        text.append(self.description.as_str());
        text.append("\n");
        match &self.due_date {
            Some(date) => {
                text.append("Due date: ");
                text.append(date.as_str());
                text.append("\n");
            },
            None => {},
        }
        text.append("\n");
        text
    }
}

impl TaskManager {
    /// All tasks as they are shown.
    pub fn list_tasks(&self) -> (text: String)
        ensures
            text@ == listing_text(Listing::All, self@.tasks),
    {
        listing(Listing::All, self.tasks())
    }
}

impl Reply {
    /// What is to be said at once. Nothing where a file has to be written or
    /// read first.
    pub fn message(&self) -> (text: Option<String>)
        ensures
            match text {
                Some(text) => reply_text(self@) == Some(text@),
                None => reply_text(self@) is None,
            },
    {
        match self {
            Reply::Added { id } => {
                let mut text = String::from_str("Task added with ID: ");
                push_decimal(&mut text, *id as u64);
                text.append("\n");
                Some(text)
            },
            Reply::Tasks { listing: which, tasks } => Some(listing(*which, tasks)),
            Reply::Completed { id } => {
                let mut text = String::from_str("Task #");
                push_decimal(&mut text, *id as u64);
                text.append(" marked as completed\n");
                Some(text)
            },
            Reply::Deleted { id } => {
                let mut text = String::from_str("Task #");
                push_decimal(&mut text, *id as u64);
                text.append(" deleted\n");
                Some(text)
            },
            Reply::Failed { error } => Some(error.report()),
            Reply::Save { filename, text } => None,
            Reply::Load { filename } => None,
            Reply::Stats { stats } => Some(stats_report(stats)),
            Reply::Help => Some(String::from_str(display_help())),
            Reply::Quit => Some(String::from_str("Goodbye!\n")),
            Reply::Unknown => Some(
                String::from_str("Unknown command. Type 'help' for a list of commands.\n"),
            ),
        }
    }
}

} // verus!
