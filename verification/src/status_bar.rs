//! The status line that gives the user feedback.
use vstd::prelude::*;

verus! {

/// What the status line shows.
#[derive(Debug, Clone)]
pub enum Status {
    Empty,
    Log(String),
    Warning(String),
    Error(String),
}

pub struct StatusBar {
    current_line: Status,
}

/// The text a status shows.
pub open spec fn status_text(s: Status) -> Seq<char> {
    match s {
        Status::Empty => Seq::empty(),
        Status::Log(l) => l@,
        Status::Warning(w) => w@,
        Status::Error(e) => e@,
    }
}

impl StatusBar {
    /// The status currently shown.
    pub closed spec fn current(&self) -> Status {
        self.current_line
    }

    pub fn new() -> (r: Self)
        ensures
            r.current() is Empty,
    {
        Self { current_line: Status::Empty }
    }

    /// Shows an ordinary message.
    pub fn log(&mut self, text: &str)
        ensures
            final(self).current() matches Status::Log(l) && l@ == text@,
    {
        self.current_line = Status::Log(text.to_owned());
    }

    /// Shows an error.
    pub fn error(&mut self, text: &str)
        ensures
            final(self).current() matches Status::Error(e) && e@ == text@,
    {
        self.current_line = Status::Error(text.to_owned());
    }

    /// Shows a warning.
    pub fn warning(&mut self, text: &str)
        ensures
            final(self).current() matches Status::Warning(w) && w@ == text@,
    {
        self.current_line = Status::Warning(text.to_owned());
    }

    /// The text of the status line.
    pub fn text(&self) -> (r: &str)
        ensures
            r@ == status_text(self.current()),
    {
        proof { reveal_strlit(""); }
        match &self.current_line {
            Status::Empty => "",
            Status::Log(l) => l.as_str(),
            Status::Warning(w) => w.as_str(),
            Status::Error(e) => e.as_str(),
        }
    }
}

} // verus!
