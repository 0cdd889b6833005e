//! The ways an operation on the document can be refused.

use vstd::prelude::*;

verus! {

/// Why an operation left the document untouched.
#[derive(Clone, Copy, Debug, PartialEq, Eq, Structural)]
pub enum LogError {
    /// A project with that name is already registered.
    AlreadyExists,
    /// No registered project has that name.
    NotFound,
    /// A session was started against a project that is not registered.
    ProjectNotFound,
    /// The project already has a running session.
    AlreadyRunning,
    /// There is no running session to stop.
    NoEntryRunning,
    /// No entry carries that id.
    EntryNotFound,
    /// A timestamp was not written as `YYYY-MM-DD HH:MM`.
    ParseError,
}

impl LogError {
    /// The sentence that tells a user of this refusal.
    pub open spec fn text(self) -> Seq<char> {
        match self {
            LogError::AlreadyExists => "Project already exists"@,
            LogError::NotFound => "No project with that name"@,
            LogError::ProjectNotFound => "Project does not exist"@,
            LogError::AlreadyRunning => "Project already started"@,
            LogError::NoEntryRunning => "No project started"@,
            LogError::EntryNotFound => "No entry with that id"@,
            LogError::ParseError => "Timestamps are written as YYYY-MM-DD HH:MM"@,
        }
    }

    /// Writes out the sentence that tells a user of this refusal.
    pub fn message(&self) -> (sentence: String)
        ensures
            sentence@ == self.text(),
    {
        match self {
            LogError::AlreadyExists => "Project already exists".to_owned(),
            LogError::NotFound => "No project with that name".to_owned(),
            LogError::ProjectNotFound => "Project does not exist".to_owned(),
            LogError::AlreadyRunning => "Project already started".to_owned(),
            LogError::NoEntryRunning => "No project started".to_owned(),
            LogError::EntryNotFound => "No entry with that id".to_owned(),
            LogError::ParseError => "Timestamps are written as YYYY-MM-DD HH:MM".to_owned(),
        }
    }
}

} // verus!
