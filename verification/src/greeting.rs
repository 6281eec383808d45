//! A greeting that can be replaced, with the list of all greetings it ever
//! was.

use vstd::prelude::*;
use vstd::string::StringExecFns;
use crate::text::chars::texts;

verus! {

/// The greeting and its history.
pub struct GreetingState {
    message: String,
    history: Vec<String>,
}

/// What a greeting state holds, as mathematical values.
pub struct GreetingView {
    pub message: Seq<char>,
    pub history: Seq<Seq<char>>,
}

/// The greeting that a state starts with.
pub open spec fn first_greeting() -> Seq<char> {
    "Hello, World!"@
}

impl GreetingView {
    /// The state that everything starts from.
    pub open spec fn initial() -> GreetingView {
        GreetingView { message: first_greeting(), history: seq![first_greeting()] }
    }

    /// The state after the greeting was replaced by `greeting`.
    pub open spec fn updated(self, greeting: Seq<char>) -> GreetingView {
        GreetingView { message: greeting, history: self.history.push(greeting) }
    }

    /// Whether the greeting is the last entry of its history.
    pub open spec fn is_consistent(self) -> bool {
        self.history.len() > 0 && self.history.last() == self.message
    }
}

impl View for GreetingState {
    type V = GreetingView;

    closed spec fn view(&self) -> GreetingView {
        GreetingView { message: self.message@, history: texts(self.history@) }
    }
}

impl GreetingState {
    /// A state with the first greeting.
    pub fn new() -> (state: GreetingState)
        ensures
            state@ == GreetingView::initial(),
            state@.is_consistent(),
    {
        let mut history: Vec<String> = Vec::new();
        history.push(String::from_str("Hello, World!"));
        let state = GreetingState { message: String::from_str("Hello, World!"), history };
        assert(state@.history == seq![first_greeting()]);
        state
    }

    /// Puts the state back to the first greeting and forgets the history.
    pub fn init(&mut self)
        ensures
            final(self)@ == GreetingView::initial(),
            final(self)@.is_consistent(),
    {
        *self = GreetingState::new();
    }

    /// Replaces the greeting, adds the new one to the history and returns it.
    pub fn update_greeting(&mut self, new_greeting: String) -> (greeting: String)
        ensures
            greeting@ == new_greeting@,
            final(self)@ == old(self)@.updated(new_greeting@),
            final(self)@.is_consistent(),
    {
        self.message = new_greeting.clone();
        self.history.push(new_greeting.clone());
        assert(texts(self.history@) == texts(old(self).history@).push(new_greeting@));
        new_greeting
    }

    /// A copy of the greeting.
    pub fn get_greeting(&self) -> (greeting: String)
        ensures
            greeting@ == self@.message,
    {
        self.message.clone()
    }

    /// A copy of all greetings so far, oldest first.
    pub fn get_greeting_history(&self) -> (history: Vec<String>)
        ensures
            texts(history@) == self@.history,
    {
        let mut history: Vec<String> = Vec::new();
        let mut i: usize = 0;
        while i < self.history.len()
            invariant
                i <= self.history.len(),
                texts(history@) == texts(self.history@).take(i as int),
            decreases self.history.len() - i,
        {
            let entry = self.history[i].clone();
            assert(texts(history@.push(entry)) == texts(history@).push(entry@));
            history.push(entry);
            i += 1;
        }
        assert(texts(self.history@).take(i as int) == texts(self.history@));
        history
    }
}

} // verus!
