//! The command language: one line of input, one command.
//!
//! A line is cut into words at white space. The first word, in capitals or
//! not, names the command; the words after it are its arguments, and words
//! beyond those that a command takes are ignored. A task is named by its
//! number, which is positive: zero names no task.

use vstd::prelude::*;
use crate::text::chars::{ascii_lowered, chars_of, lowered, spells, string_of};
use crate::text::decimal::{parse_u32, read_u32};
use crate::text::words::{split_words, words};

verus! {

/// What the user asks for.
#[derive(Debug, PartialEq, Eq)]
pub enum Command {
    Add { title: String, description: String, due_date: Option<String> },
    List,
    ListPending,
    ListCompleted,
    Complete { id: u32 },
    Delete { id: u32 },
    Save { filename: String },
    Load { filename: String },
    Stats,
    Help,
    Quit,
    Unknown,
}

/// What a command holds, as mathematical values.
pub enum CommandView {
    Add { title: Seq<char>, description: Seq<char>, due_date: Option<Seq<char>> },
    List,
    ListPending,
    ListCompleted,
    Complete { id: u32 },
    Delete { id: u32 },
    Save { filename: Seq<char> },
    Load { filename: Seq<char> },
    Stats,
    Help,
    Quit,
    Unknown,
}

impl View for Command {
    type V = CommandView;

    open spec fn view(&self) -> CommandView {
        match self {
            Command::Add { title, description, due_date } => CommandView::Add {
                title: title@,
                description: description@,
                due_date: match due_date {
                    Some(date) => Some(date@),
                    None => None,
                },
            },
            Command::List => CommandView::List,
            Command::ListPending => CommandView::ListPending,
            Command::ListCompleted => CommandView::ListCompleted,
            Command::Complete { id } => CommandView::Complete { id: *id },
            Command::Delete { id } => CommandView::Delete { id: *id },
            Command::Save { filename } => CommandView::Save { filename: filename@ },
            Command::Load { filename } => CommandView::Load { filename: filename@ },
            Command::Stats => CommandView::Stats,
            Command::Help => CommandView::Help,
            Command::Quit => CommandView::Quit,
            Command::Unknown => CommandView::Unknown,
        }
    }
}

/// What is wrong with a line that names a command but cannot be one.
#[derive(Debug, Clone, Copy, PartialEq, Eq, Structural)]
pub enum InputError {
    /// `add` without both a title and a description.
    AddNeedsTexts,
    /// `complete` without a task number.
    CompleteNeedsId,
    /// `delete` without a task number.
    DeleteNeedsId,
    /// `complete` or `delete` with a word that is no positive number.
    IdNotANumber,
    /// `save` without a file name.
    SaveNeedsFilename,
    /// `load` without a file name.
    LoadNeedsFilename,
}

/// The words in which a complaint is told to the user.
pub open spec fn complaint_message(error: InputError) -> Seq<char> {
    match error {
        InputError::AddNeedsTexts => "'add' command requires a title and description"@,
        InputError::CompleteNeedsId => "'complete' command requires a task ID"@,
        InputError::DeleteNeedsId => "'delete' command requires a task ID"@,
        InputError::IdNotANumber => "Task ID must be a positive number"@,
        InputError::SaveNeedsFilename => "'save' command requires a filename"@,
        InputError::LoadNeedsFilename => "'load' command requires a filename"@,
    }
}

impl InputError {
    /// The words in which this complaint is told to the user.
    pub fn message(&self) -> (text: &'static str)
        ensures
            text@ == complaint_message(*self),
    {
        match self {
            InputError::AddNeedsTexts => "'add' command requires a title and description",
            InputError::CompleteNeedsId => "'complete' command requires a task ID",
            InputError::DeleteNeedsId => "'delete' command requires a task ID",
            InputError::IdNotANumber => "Task ID must be a positive number",
            InputError::SaveNeedsFilename => "'save' command requires a filename",
            InputError::LoadNeedsFilename => "'load' command requires a filename",
        }
    }
}

/// A line of input as it was understood: the command, and the complaint to
/// report where the line named a command but could not be one.
#[derive(Debug, PartialEq, Eq)]
pub struct Parsed {
    pub command: Command,
    pub complaint: Option<InputError>,
}

/// A line that is no command, with the reason.
pub open spec fn rejected(error: InputError) -> (CommandView, Option<InputError>) {
    (CommandView::Unknown, Some(error))
}

/// A line that is a command.
pub open spec fn accepted(command: CommandView) -> (CommandView, Option<InputError>) {
    (command, None)
}

/// The task number that a word stands for: a number that is positive. The
/// word for zero stands for none, as does a word that is no number.
pub open spec fn parse_task_id(word: Seq<char>) -> Option<u32> {
    match parse_u32(word) {
        Some(id) => if id > 0 {
            Some(id)
        } else {
            None
        },
        None => None,
    }
}

/// The command that takes a task number, from the words after its name.
pub open spec fn with_task_id(
    args: Seq<Seq<char>>,
    missing: InputError,
    build: spec_fn(u32) -> CommandView,
) -> (CommandView, Option<InputError>) {
    if args.len() < 1 {
        rejected(missing)
    } else {
        match parse_task_id(args[0]) {
            Some(id) => accepted(build(id)),
            None => rejected(InputError::IdNotANumber),
        }
    }
}

/// The command that takes a file name, from the words after its name.
pub open spec fn with_filename(
    args: Seq<Seq<char>>,
    missing: InputError,
    build: spec_fn(Seq<char>) -> CommandView,
) -> (CommandView, Option<InputError>) {
    if args.len() < 1 {
        rejected(missing)
    } else {
        accepted(build(args[0]))
    }
}

/// The command that a line of input stands for, and the complaint that goes
/// with it. A line without words, or one whose first word names no command,
/// is unknown without a complaint.
pub open spec fn interpret(input: Seq<char>) -> (CommandView, Option<InputError>) {
    let parts = words(input);
    if parts.len() == 0 {
        accepted(CommandView::Unknown)
    } else {
        let name = ascii_lowered(parts[0]);
        let args = parts.drop_first();
        if name == "add"@ {
            if args.len() < 2 {
                rejected(InputError::AddNeedsTexts)
            } else {
                accepted(
                    CommandView::Add {
                        title: args[0],
                        description: args[1],
                        due_date: if args.len() > 2 {
                            Some(args[2])
                        } else {
                            None
                        },
                    },
                )
            }
        } else if name == "list"@ {
            accepted(CommandView::List)
        } else if name == "pending"@ {
            accepted(CommandView::ListPending)
        } else if name == "completed"@ {
            accepted(CommandView::ListCompleted)
        } else if name == "complete"@ {
            with_task_id(args, InputError::CompleteNeedsId, |id: u32| CommandView::Complete { id })
        } else if name == "delete"@ {
            with_task_id(args, InputError::DeleteNeedsId, |id: u32| CommandView::Delete { id })
        } else if name == "save"@ {
            with_filename(
                args,
                InputError::SaveNeedsFilename,
                |filename: Seq<char>| CommandView::Save { filename },
            )
        } else if name == "load"@ {
            with_filename(
                args,
                InputError::LoadNeedsFilename,
                |filename: Seq<char>| CommandView::Load { filename },
            )
        } else if name == "stats"@ {
            accepted(CommandView::Stats)
        } else if name == "help"@ {
            accepted(CommandView::Help)
        } else if name == "quit"@ || name == "exit"@ {
            accepted(CommandView::Quit)
        } else {
            accepted(CommandView::Unknown)
        }
    }
}

/// A complaint always comes with the unknown command.
pub proof fn lemma_complaint_means_unknown(input: Seq<char>)
    ensures
        interpret(input).1 is Some ==> interpret(input).0 is Unknown,
{
}

/// The task number of a command that was read from a line is positive.
pub proof fn lemma_task_numbers_are_positive(input: Seq<char>)
    ensures
        interpret(input).0 matches CommandView::Complete { id } ==> id > 0,
        interpret(input).0 matches CommandView::Delete { id } ==> id > 0,
{
}

/// Reads `chars` as a task number.
pub fn read_task_id(chars: &Vec<char>) -> (id: Option<u32>)
    ensures
        id == parse_task_id(chars@),
{
    match read_u32(chars) {
        Some(id) => if id > 0 {
            Some(id)
        } else {
            None
        },
        None => None,
    }
}

/// A line that is a command.
fn understood(command: Command) -> (parsed: Parsed)
    ensures
        parsed.command == command,
        parsed.complaint is None,
{
    Parsed { command, complaint: None }
}

/// A line that is no command, with the reason.
fn refused(error: InputError) -> (parsed: Parsed)
    ensures
        parsed.command == Command::Unknown,
        parsed.complaint == Some(error),
{
    Parsed { command: Command::Unknown, complaint: Some(error) }
}

/// Reads one line of input as a command.
pub fn parse_command(input: &str) -> (parsed: Parsed)
    ensures
        parsed.command@ == interpret(input@).0,
        parsed.complaint == interpret(input@).1,
{
    let chars = chars_of(input);
    let parts = split_words(&chars);
    if parts.len() == 0 {
        return understood(Command::Unknown);
    }
    let ghost args = words(input@).drop_first();
    assert(forall|i: int| 0 <= i < args.len() ==> args[i] == #[trigger] parts[i + 1]@);
    let name = lowered(&parts[0]);
    if spells(&name, "add") {
        if parts.len() < 3 {
            return refused(InputError::AddNeedsTexts);
        }
        let title = string_of(&parts[1]);
        let description = string_of(&parts[2]);
        let due_date = if parts.len() > 3 {
            Some(string_of(&parts[3]))
        } else {
            None
        };
        understood(Command::Add { title, description, due_date })
    } else if spells(&name, "list") {
        understood(Command::List)
    } else if spells(&name, "pending") {
        understood(Command::ListPending)
    } else if spells(&name, "completed") {
        understood(Command::ListCompleted)
    } else if spells(&name, "complete") {
        if parts.len() < 2 {
            return refused(InputError::CompleteNeedsId);
        }
        match read_task_id(&parts[1]) {
            Some(id) => understood(Command::Complete { id }),
            None => refused(InputError::IdNotANumber),
        }
    } else if spells(&name, "delete") {
        if parts.len() < 2 {
            return refused(InputError::DeleteNeedsId);
        }
        match read_task_id(&parts[1]) {
            Some(id) => understood(Command::Delete { id }),
            None => refused(InputError::IdNotANumber),
        }
    } else if spells(&name, "save") {
        if parts.len() < 2 {
            return refused(InputError::SaveNeedsFilename);
        }
        understood(Command::Save { filename: string_of(&parts[1]) })
    } else if spells(&name, "load") {
        if parts.len() < 2 {
            return refused(InputError::LoadNeedsFilename);
        }
        understood(Command::Load { filename: string_of(&parts[1]) })
    } else if spells(&name, "stats") {
        understood(Command::Stats)
    } else if spells(&name, "help") {
        understood(Command::Help)
    } else if spells(&name, "quit") || spells(&name, "exit") {
        understood(Command::Quit)
    } else {
        understood(Command::Unknown)
    }
}

} // verus!
