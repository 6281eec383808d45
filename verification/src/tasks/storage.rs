//! A store as text: the counter on the first line, then one line per task.
//!
//! Reading is forgiving. A first line that is no number makes the counter 1,
//! and a later line that is no task is passed over. Only a text without any
//! line is refused.

use vstd::prelude::*;
use vstd::string::StringExecFns;
use crate::tasks::manager::{StoreView, TaskError, TaskManager, task_views};
use crate::tasks::task::{Task, TaskView, decode_task, encode_task, is_encodable, texts_avoid, lemma_task_line_is_plain, lemma_task_round_trip};
use crate::text::chars::chars_of;
use crate::text::decimal::{decimal, is_digit, parse_u32, push_decimal, read_u32, lemma_decimal_avoids, lemma_decimal_digits, lemma_parse_decimal};
use crate::text::lines::{is_plain_line, lines, split_lines, unlines, lemma_lines_unlines, lemma_unlines_push};

verus! {

/// The line feed that ends every line.
pub const LINE_END: char = '\n';

/// The line-by-line reading of a task.
pub open spec fn task_decoder() -> spec_fn(Seq<char>) -> Option<TaskView> {
    |line: Seq<char>| decode_task(line)
}

/// The lines of a store: its counter, then its tasks in order.
pub open spec fn store_lines(store: StoreView) -> Seq<Seq<char>> {
    seq![decimal(store.next_id as nat)] + Seq::new(
        store.tasks.len(),
        |i: int| encode_task(store.tasks[i]),
    )
}

/// The text that stands for a store: each of its lines, ended by a line feed.
pub open spec fn encode_store(store: StoreView) -> Seq<char> {
    unlines(store_lines(store))
}

/// The counter that a first line stands for: its number, or 1 where it is
/// no number.
pub open spec fn decode_counter(line: Seq<char>) -> u32 {
    match parse_u32(line) {
        Some(next_id) => next_id,
        None => 1,
    }
}

/// The store that a text stands for, if it has at least one line: the first
/// line gives the counter, and each later line that stands for a task gives
/// that task.
pub open spec fn decode_store(text: Seq<char>) -> Option<StoreView> {
    let ls = lines(text);
    if ls.len() == 0 {
        None
    } else {
        Some(
            StoreView {
                tasks: ls.drop_first().filter_map(task_decoder()),
                next_id: decode_counter(ls[0]),
            },
        )
    }
}

/// Whether a store can be written and read back unchanged: each task is
/// encodable, and no text field holds a line feed.
pub open spec fn is_storable(store: StoreView) -> bool {
    forall|i: int|
        0 <= i < store.tasks.len() ==> is_encodable(#[trigger] store.tasks[i]) && texts_avoid(
            store.tasks[i],
            LINE_END,
        )
}

/// Reading the lines written for encodable tasks gives those tasks back.
pub proof fn lemma_tasks_round_trip(tasks: Seq<TaskView>)
    requires
        forall|i: int| 0 <= i < tasks.len() ==> is_encodable(#[trigger] tasks[i]),
    ensures
        Seq::new(tasks.len(), |i: int| encode_task(tasks[i])).filter_map(task_decoder()) == tasks,
    decreases tasks.len(),
{
    let written = Seq::new(tasks.len(), |i: int| encode_task(tasks[i]));
    if tasks.len() > 0 {
        let before = tasks.drop_last();
        lemma_tasks_round_trip(before);
        assert(written.drop_last() == Seq::new(before.len(), |i: int| encode_task(before[i])));
        assert(is_encodable(tasks.last()));
        lemma_task_round_trip(tasks.last());
        assert(written.last() == encode_task(tasks.last()));
        assert(before + seq![tasks.last()] == tasks);
    }
}

/// Reading the text written for a storable store gives that store back:
/// the same tasks in the same order, and the same counter.
pub proof fn lemma_store_round_trip(store: StoreView)
    requires
        is_storable(store),
    ensures
        decode_store(encode_store(store)) == Some(store),
{
    let ls = store_lines(store);
    let written = Seq::new(store.tasks.len(), |i: int| encode_task(store.tasks[i]));
    lemma_decimal_digits(store.next_id as nat);
    lemma_decimal_avoids(store.next_id as nat, LINE_END);
    lemma_parse_decimal(store.next_id);
    assert(is_plain_line(ls[0])) by {
        assert(is_digit(ls[0].last()));
    }
    assert forall|i: int| 0 <= i < ls.len() implies is_plain_line(#[trigger] ls[i]) by {
        if i > 0 {
            assert(ls[i] == encode_task(store.tasks[i - 1]));
            assert(is_encodable(store.tasks[i - 1]));
            lemma_task_line_is_plain(store.tasks[i - 1]);
        }
    }
    lemma_lines_unlines(ls);
    assert(ls.drop_first() == written);
    lemma_tasks_round_trip(store.tasks);
}

impl TaskManager {
    /// The text that stands for this store.
    pub fn serialize(&self) -> (text: String)
        ensures
            text@ == encode_store(self@),
    {
        let tasks = self.tasks();
        let ghost ls = store_lines(self@);
        let mut text = String::new();
        push_decimal(&mut text, self.next_id() as u64);
        text.push(LINE_END);
        proof {
            lemma_unlines_push(Seq::empty(), ls[0]);
            assert(ls.take(1) == Seq::<Seq<char>>::empty().push(ls[0]));
            assert(unlines(Seq::<Seq<char>>::empty()) == Seq::<char>::empty());
        }
        let mut i: usize = 0;
        while i < tasks.len()
            invariant
                i <= tasks.len(),
                task_views(tasks@) == self@.tasks,
                ls == store_lines(self@),
                text@ == unlines(ls.take(i + 1)),
            decreases tasks.len() - i,
        {
            let line = tasks[i].to_string();
            text.append(line.as_str());
            text.push(LINE_END);
            proof {
                assert(tasks[i as int]@ == self@.tasks[i as int]);
                assert(ls[i + 1] == line@);
                lemma_unlines_push(ls.take(i + 1), line@);
                assert(ls.take(i + 2) == ls.take(i + 1).push(ls[i + 1]));
            }
            i += 1;
        }
        assert(ls.take(i + 1) == ls);
        text
    }

    /// The store that `text` stands for. A text without any line stands for
    /// none.
    pub fn deserialize(text: &str) -> (store: Result<TaskManager, TaskError>)
        ensures
            match store {
                Ok(store) => decode_store(text@) == Some(store@),
                Err(error) => decode_store(text@) is None && error == TaskError::MalformedFile,
            },
    {
        let chars = chars_of(text);
        let ls = split_lines(&chars);
        if ls.len() == 0 {
            return Err(TaskError::MalformedFile);
        }
        let next_id = match read_u32(&ls[0]) {
            Some(next_id) => next_id,
            None => 1,
        };
        let ghost rest = lines(text@).drop_first();
        let mut tasks: Vec<Task> = Vec::new();
        let mut i: usize = 1;
        assert(rest.take(0).filter_map(task_decoder()) == Seq::<TaskView>::empty());
        while i < ls.len()
            invariant
                1 <= i <= ls.len(),
                crate::text::chars::views(ls@) == lines(text@),
                rest == lines(text@).drop_first(),
                task_views(tasks@) == rest.take(i - 1).filter_map(task_decoder()),
            decreases ls.len() - i,
        {
            proof {
                rest.lemma_filter_map_take_succ(task_decoder(), i - 1);
                assert(rest[i - 1] == ls[i as int]@);
            }
            match Task::from_chars(&ls[i]) {
                Some(task) => {
                    assert(task_views(tasks@.push(task)) == task_views(tasks@) + seq![task@]);
                    tasks.push(task);
                },
                None => {
                    assert(task_views(tasks@) + Seq::<TaskView>::empty() == task_views(tasks@));
                },
            }
            i += 1;
        }
        assert(rest.take(i - 1) == rest);
        Ok(TaskManager::from_parts(tasks, next_id))
    }

    /// Replaces this store by the one that `text` stands for. Where the text
    /// stands for none, the store stays as it is.
    pub fn load(&mut self, text: &str) -> (done: Result<(), TaskError>)
        ensures
            match done {
                Ok(()) => decode_store(text@) == Some(final(self)@),
                Err(error) => {
                    &&& decode_store(text@) is None
                    &&& error == TaskError::MalformedFile
                    &&& final(self)@ == old(self)@
                },
            },
    {
        match TaskManager::deserialize(text) {
            Ok(store) => {
                *self = store;
                Ok(())
            },
            Err(error) => Err(error),
        }
    }
}

} // verus!
