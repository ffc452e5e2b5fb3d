//! The watcher's decisions. The caller sleeps, reads the clipboard and hands
//! the text in; the watcher says what to write back and remembers what it saw.

use vstd::prelude::*;
use crate::name::{format_full_name, formatted};

verus! {

/// A text that may be missing, as a sequence of characters.
pub open spec fn text(content: Option<String>) -> Option<Seq<char>> {
    match content {
        Some(s) => Some(s@),
        None => None,
    }
}

/// Whether a reading calls for a look at the text: it was read, and it is not
/// what was seen or written last. Before anything was seen, every text is new.
pub open spec fn is_new(last: Option<Seq<char>>, read: Option<Seq<char>>) -> bool {
    read is Some && last != read
}

/// The code to put on the clipboard after a reading, if any.
pub open spec fn text_to_write(last: Option<Seq<char>>, read: Option<Seq<char>>) -> Option<
    Seq<char>,
> {
    if is_new(last, read) {
        formatted(read->0)
    } else {
        None
    }
}

/// What is remembered after a reading: the code where one was written, else the
/// new text as it was read; where nothing new was read, what was remembered before.
pub open spec fn next_content(last: Option<Seq<char>>, read: Option<Seq<char>>) -> Option<
    Seq<char>,
> {
    if !is_new(last, read) {
        last
    } else if formatted(read->0) is Some {
        formatted(read->0)
    } else {
        read
    }
}

/// What the caller does after a reading.
pub enum Action {
    /// Leave the clipboard as it is.
    Leave,
    /// Put this code on the clipboard.
    Write(String),
}

impl View for Action {
    type V = Option<Seq<char>>;

    open spec fn view(&self) -> Option<Seq<char>> {
        match self {
            Action::Leave => None,
            Action::Write(code) => Some(code@),
        }
    }
}

/// The watcher's memory: the text last seen on the clipboard or last written to it.
pub struct Monitor {
    last_content: Option<String>,
}

impl View for Monitor {
    type V = Option<Seq<char>>;

    closed spec fn view(&self) -> Option<Seq<char>> {
        text(self.last_content)
    }
}

impl Monitor {
    /// A watcher that has seen nothing yet.
    pub fn new() -> (monitor: Self)
        ensures
            monitor@ is None,
    {
        Monitor { last_content: None }
    }

    /// The text last seen or written.
    pub fn last_content(&self) -> (content: &Option<String>)
        ensures
            text(*content) == self@,
    {
        &self.last_content
    }

    /// Takes one reading of the clipboard, `None` where the read failed. A failed
    /// read and an unchanged text change nothing. A new text is formatted: with a
    /// code, the code is to be written and is remembered; without one, the
    /// clipboard is left alone and the text is remembered.
    pub fn observe(&mut self, read: Option<String>) -> (action: Action)
        ensures
            action@ == text_to_write(old(self)@, text(read)),
            final(self)@ == next_content(old(self)@, text(read)),
    {
        let content = match read {
            None => {
                return Action::Leave;
            },
            Some(content) => content,
        };
        let unchanged = match &self.last_content {
            None => false,
            Some(last) => *last == content,
        };
        if unchanged {
            return Action::Leave;
        }
        match format_full_name(content.clone()) {
            None => {
                self.last_content = Some(content);
                Action::Leave
            },
            Some(code) => {
                self.last_content = Some(code.clone());
                Action::Write(code)
            },
        }
    }
}

} // verus!
