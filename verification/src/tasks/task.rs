//! One task and the line of text that stands for it.
//!
//! A task is written as five fields with `|` between them: its number, its
//! title, its description, its due date or the word `none`, and `pending` or
//! `completed`. Nothing is escaped, so a field that holds `|` spoils its line.

use vstd::prelude::*;
use vstd::string::StringExecFns;
use crate::text::chars::{chars_of, spells, string_of};
use crate::text::decimal::{decimal, parse_u32, push_decimal, read_u32, lemma_decimal_avoids, lemma_parse_decimal};
use crate::text::fields::{join, none_contains, split, split_at_char, lemma_join_avoids, lemma_join_ends, lemma_split_join};
use crate::text::lines::is_plain_line;

verus! {

/// The character between the fields of a task's line.
pub const SEPARATOR: char = '|';

/// Whether a task is still to be done.
#[derive(Debug, Clone, Copy, PartialEq, Eq, Structural)]
pub enum TaskStatus {
    Pending,
    Completed,
}

/// A task: something to do, with a number that the store gave it.
#[derive(Debug, PartialEq, Eq)]
pub struct Task {
    pub id: u32,
    pub title: String,
    pub description: String,
    pub due_date: Option<String>,
    pub status: TaskStatus,
}

/// What a task holds, as mathematical values.
pub struct TaskView {
    pub id: u32,
    pub title: Seq<char>,
    pub description: Seq<char>,
    pub due_date: Option<Seq<char>>,
    pub status: TaskStatus,
}

impl View for Task {
    type V = TaskView;

    open spec fn view(&self) -> TaskView {
        TaskView {
            id: self.id,
            title: self.title@,
            description: self.description@,
            due_date: match self.due_date {
                Some(date) => Some(date@),
                None => None,
            },
            status: self.status,
        }
    }
}

/// The name of a status as it is shown to a reader.
pub open spec fn status_name(status: TaskStatus) -> Seq<char> {
    match status {
        TaskStatus::Pending => "Pending"@,
        TaskStatus::Completed => "Completed"@,
    }
}

/// The word that stands for a status in a task's line.
pub open spec fn status_keyword(status: TaskStatus) -> Seq<char> {
    match status {
        TaskStatus::Pending => "pending"@,
        TaskStatus::Completed => "completed"@,
    }
}

/// The status that a word in a task's line stands for: `completed` means
/// completed, any other word pending.
pub open spec fn keyword_status(word: Seq<char>) -> TaskStatus {
    if word == "completed"@ {
        TaskStatus::Completed
    } else {
        TaskStatus::Pending
    }
}

/// The field that stands for a due date: the date itself, or `none`.
pub open spec fn due_field(due_date: Option<Seq<char>>) -> Seq<char> {
    match due_date {
        Some(date) => date,
        None => "none"@,
    }
}

/// The due date that a field stands for: none for the word `none`, else the
/// field itself.
pub open spec fn field_due(field: Seq<char>) -> Option<Seq<char>> {
    if field == "none"@ {
        None
    } else {
        Some(field)
    }
}

/// The five fields of a task's line.
pub open spec fn task_fields(task: TaskView) -> Seq<Seq<char>> {
    seq![
        decimal(task.id as nat),
        task.title,
        task.description,
        due_field(task.due_date),
        status_keyword(task.status),
    ]
}

/// The line of text that stands for a task.
pub open spec fn encode_task(task: TaskView) -> Seq<char> {
    join(task_fields(task), SEPARATOR)
}

/// The task that a line of text stands for, if it stands for one: the line
/// must have exactly five fields, and the first must be a number.
pub open spec fn decode_task(line: Seq<char>) -> Option<TaskView> {
    let fields = split(line, SEPARATOR);
    if fields.len() == 5 && parse_u32(fields[0]) is Some {
        Some(
            TaskView {
                id: parse_u32(fields[0])->0,
                title: fields[1],
                description: fields[2],
                due_date: field_due(fields[3]),
                status: keyword_status(fields[4]),
            },
        )
    } else {
        None
    }
}

/// Whether a task's line can be read back as the same task: no text field
/// holds the separator, and the due date is not the word `none`.
pub open spec fn is_encodable(task: TaskView) -> bool {
    &&& texts_avoid(task, SEPARATOR)
    &&& task.due_date != Some("none"@)
}

/// Whether none of a task's text fields holds the character `c`.
pub open spec fn texts_avoid(task: TaskView, c: char) -> bool {
    &&& !task.title.contains(c)
    &&& !task.description.contains(c)
    &&& task.due_date matches Some(date) ==> !date.contains(c)
}

/// The line written for a task holds a line feed only where one of the
/// task's text fields does, and it never ends with a carriage return.
pub proof fn lemma_task_line_is_plain(task: TaskView)
    requires
        texts_avoid(task, '\n'),
    ensures
        is_plain_line(encode_task(task)),
{
    reveal_strlit("none");
    reveal_strlit("pending");
    reveal_strlit("completed");
    let fields = task_fields(task);
    lemma_decimal_avoids(task.id as nat, '\n');
    assert(!"none"@.contains('\n'));
    assert(!"pending"@.contains('\n'));
    assert(!"completed"@.contains('\n'));
    assert(none_contains(fields, '\n'));
    lemma_join_avoids(fields, SEPARATOR, '\n');
    assert(fields.last() == status_keyword(task.status));
    lemma_join_ends(fields, SEPARATOR);
}

/// Reading the line written for an encodable task gives that task back.
pub proof fn lemma_task_round_trip(task: TaskView)
    requires
        is_encodable(task),
    ensures
        decode_task(encode_task(task)) == Some(task),
{
    reveal_strlit("none");
    reveal_strlit("pending");
    reveal_strlit("completed");
    let fields = task_fields(task);
    lemma_decimal_avoids(task.id as nat, SEPARATOR);
    lemma_parse_decimal(task.id);
    assert(!"none"@.contains(SEPARATOR));
    assert(!"pending"@.contains(SEPARATOR));
    assert(!"completed"@.contains(SEPARATOR));
    assert("pending"@ != "completed"@) by {
        assert("pending"@.len() != "completed"@.len());
    }
    assert(none_contains(fields, SEPARATOR));
    lemma_split_join(fields, SEPARATOR);
}

impl TaskStatus {
    /// The name of the status as it is shown to a reader.
    pub fn name(&self) -> (name: &'static str)
        ensures
            name@ == status_name(*self),
    {
        match self {
            TaskStatus::Pending => "Pending",
            TaskStatus::Completed => "Completed",
        }
    }
}

impl Clone for Task {
    fn clone(&self) -> (copy: Task)
        ensures
            copy@ == self@,
    {
        Task {
            id: self.id,
            title: self.title.clone(),
            description: self.description.clone(),
            due_date: match &self.due_date {
                Some(date) => Some(date.clone()),
                None => None,
            },
            status: self.status,
        }
    }
}

impl Task {
    /// The line of text that stands for `self`.
    pub fn to_string(&self) -> (line: String)
        ensures
            line@ == encode_task(self@),
    {
        let mut line = String::new();
        push_decimal(&mut line, self.id as u64);
        line.push(SEPARATOR);
        line.append(self.title.as_str());
        line.push(SEPARATOR);
        line.append(self.description.as_str());
        line.push(SEPARATOR);
        match &self.due_date {
            Some(date) => line.append(date.as_str()),
            None => line.append("none"),
        }
        line.push(SEPARATOR);
        match self.status {
            TaskStatus::Pending => line.append("pending"),
            TaskStatus::Completed => line.append("completed"),
        }
        proof {
            let fields = task_fields(self@);
            let sep = seq![SEPARATOR];
            let f1 = fields.drop_first();
            let f2 = f1.drop_first();
            let f3 = f2.drop_first();
            let f4 = f3.drop_first();
            assert(join(f4, SEPARATOR) == fields[4]);
            assert(join(f3, SEPARATOR) == fields[3] + sep + join(f4, SEPARATOR));
            assert(join(f2, SEPARATOR) == fields[2] + sep + join(f3, SEPARATOR));
            assert(join(f1, SEPARATOR) == fields[1] + sep + join(f2, SEPARATOR));
            assert(join(fields, SEPARATOR) == fields[0] + sep + join(f1, SEPARATOR));
            assert(line@ == fields[0] + sep + (fields[1] + sep + (fields[2] + sep + (fields[3]
                + sep + fields[4]))));
        }
        line
    }

    /// The task that the line `chars` stands for, if it stands for one.
    pub fn from_chars(chars: &Vec<char>) -> (task: Option<Task>)
        ensures
            match task {
                Some(task) => decode_task(chars@) == Some(task@),
                None => decode_task(chars@) is None,
            },
    {
        let fields = split_at_char(chars, SEPARATOR);
        if fields.len() != 5 {
            return None;
        }
        let id = match read_u32(&fields[0]) {
            Some(id) => id,
            None => {
                return None;
            },
        };
        let title = string_of(&fields[1]);
        let description = string_of(&fields[2]);
        let due_date = if spells(&fields[3], "none") {
            None
        } else {
            Some(string_of(&fields[3]))
        };
        let status = if spells(&fields[4], "completed") {
            TaskStatus::Completed
        } else {
            TaskStatus::Pending
        };
        Some(Task { id, title, description, due_date, status })
    }

    /// The task that `s` stands for, if it stands for one.
    pub fn from_string(s: &str) -> (task: Option<Task>)
        ensures
            match task {
                Some(task) => decode_task(s@) == Some(task@),
                None => decode_task(s@) is None,
            },
    {
        let chars = chars_of(s);
        Task::from_chars(&chars)
    }
}

} // verus!
