//! Commands, and what carrying one out does to the document.

use vstd::prelude::*;
use crate::data::{
    create_project, delete_entry, delete_project, entries_in_period, fetch_entries, list_projects,
    start_entry, stop_entry, tag_view, update_entry, views_of, LogFile, TimeEntry,
};
use crate::error::LogError;
use crate::model::{applied, LogView};
use crate::time::{Period, Timestamp};

verus! {

/// A command line, once read.
#[derive(Debug, PartialEq, Eq)]
pub struct Cli {
    pub cmd: Command,
}

/// What the user asks for.
#[derive(Debug, PartialEq, Eq)]
pub enum Command {
    /// Start tracking time for a project, with an optional tag.
    Start { project: String, tag: Option<String> },
    /// Stop the running session.
    Stop {},
    /// List projects or entries.
    List { what: ListCommand },
    /// Delete an entry.
    Delete { id: i32 },
    /// Rewrite the times of an entry, each written as `YYYY-MM-DD HH:MM`.
    Update { id: i32, start: String, end: String },
    /// Select the entries of a project over a period, optionally by tag.
    Report { period: Period, project: String, tag: Option<String> },
    /// Register or remove a project.
    Project { cmd: ProjectCommand },
}

/// What to list.
#[derive(Debug, PartialEq, Eq)]
pub enum ListCommand {
    /// Every registered project.
    Projects,
    /// The entries that started within a period.
    Entries { period: Period },
}

/// What to do to the registry.
#[derive(Debug, PartialEq, Eq)]
pub enum ProjectCommand {
    /// Register a project.
    New { name: String },
    /// Remove a project.
    Delete { name: String },
}

/// What a command that was carried out has to show for it.
#[derive(Debug, PartialEq, Eq)]
pub enum Reply {
    /// A project was registered.
    ProjectCreated { name: String },
    /// A project was removed.
    ProjectDeleted { name: String },
    /// The registered projects, in registration order.
    Projects { names: Vec<String> },
    /// The entries of a period, in storage order.
    Entries { entries: Vec<TimeEntry> },
    /// A session was started.
    Started { project: String, tag: Option<String>, start: Timestamp },
    /// The running session was stopped.
    Stopped,
    /// An entry's times were rewritten.
    Updated,
    /// An entry was deleted.
    Deleted,
    /// The entries a report is about, in storage order.
    Report { entries: Vec<TimeEntry> },
}

/// An outcome without its reply: success, or the refusal.
pub open spec fn status(outcome: Result<Reply, LogError>) -> Result<(), LogError> {
    match outcome {
        Ok(_) => Ok(()),
        Err(refusal) => Err(refusal),
    }
}

impl Reply {
    /// Whether the command behind this reply may have changed the document,
    /// so that the store has to be written again.
    pub open spec fn is_change(self) -> bool {
        match self {
            Reply::Projects { .. } | Reply::Entries { .. } | Reply::Report { .. } => false,
            _ => true,
        }
    }

    /// Tells whether the store has to be written again after this reply.
    pub fn changes_document(&self) -> (changed: bool)
        ensures
            changed == self.is_change(),
    {
        match self {
            Reply::Projects { .. } | Reply::Entries { .. } | Reply::Report { .. } => false,
            _ => true,
        }
    }
}

impl Command {
    /// What carrying out this command at `now` amounts to: how `outcome` and
    /// the document `after` relate to the document `before`.
    pub open spec fn carried_out(
        self,
        before: LogView,
        now: Timestamp,
        outcome: Result<Reply, LogError>,
        after: LogView,
    ) -> bool {
        match self {
            Command::Start { project, tag } => {
                &&& applied(
                    before,
                    before.start_entry(project@, tag_view(tag), now),
                    status(outcome),
                    after,
                )
                &&& outcome matches Ok(reply) ==> reply == (Reply::Started {
                    project,
                    tag,
                    start: now,
                })
            },
            Command::Stop {} => {
                &&& applied(before, before.stop_entry(now), status(outcome), after)
                &&& outcome matches Ok(reply) ==> reply == Reply::Stopped
            },
            Command::List { what: ListCommand::Projects } => {
                &&& after == before
                &&& outcome matches Ok(Reply::Projects { names })
                &&& names.deep_view() == before.projects
            },
            Command::List { what: ListCommand::Entries { period } } => {
                &&& after == before
                &&& outcome matches Ok(Reply::Entries { entries })
                &&& views_of(entries@) == before.entries_in(period, now)
            },
            Command::Delete { id } => {
                &&& applied(before, before.delete_entry(id as int), status(outcome), after)
                &&& outcome matches Ok(reply) ==> reply == Reply::Deleted
            },
            Command::Update { id, start, end } => {
                &&& applied(
                    before,
                    before.update_entry_text(
                        id as int,
                        Timestamp::parsed(start@),
                        Timestamp::parsed(end@),
                    ),
                    status(outcome),
                    after,
                )
                &&& outcome matches Ok(reply) ==> reply == Reply::Updated
            },
            Command::Report { period, project, tag } => {
                &&& after == before
                &&& outcome matches Ok(Reply::Report { entries })
                &&& views_of(entries@) == before.fetch_entries(
                    period,
                    project@,
                    tag_view(tag),
                    now,
                )
            },
            Command::Project { cmd: ProjectCommand::New { name } } => {
                &&& applied(before, before.create_project(name@), status(outcome), after)
                &&& outcome matches Ok(reply) ==> reply == (Reply::ProjectCreated { name })
            },
            Command::Project { cmd: ProjectCommand::Delete { name } } => {
                &&& applied(before, before.delete_project(name@), status(outcome), after)
                &&& outcome matches Ok(reply) ==> reply == (Reply::ProjectDeleted { name })
            },
        }
    }
}

/// A copy of an optional tag.
fn copy_tag(tag: &Option<String>) -> (copy: Option<String>)
    ensures
        copy == *tag,
{
    match tag {
        Some(t) => Some(t.clone()),
        None => None,
    }
}

impl Cli {
    /// Carries out the command on `log_file`, with `now` as the current
    /// local time.
    ///
    /// A refused command leaves the document as it was, and so does a command
    /// that only reads; the reply of a command that was carried out says what
    /// there is to show.
    pub fn run(self, log_file: &mut LogFile, now: Timestamp) -> (outcome: Result<Reply, LogError>)
        ensures
            self.cmd.carried_out(old(log_file)@, now, outcome, final(log_file)@),
            old(log_file)@.well_formed() ==> final(log_file)@.well_formed(),
            outcome matches Ok(reply) ==> reply.is_change() || final(log_file)@ == old(
                log_file,
            )@,
            outcome is Err ==> final(log_file)@ == old(log_file)@,
    {
        match self.cmd {
            Command::Start { project, tag } => {
                let started = Reply::Started {
                    project: project.clone(),
                    tag: copy_tag(&tag),
                    start: now,
                };
                match start_entry(log_file, project, tag, now) {
                    Ok(()) => Ok(started),
                    Err(refusal) => Err(refusal),
                }
            },
            Command::Stop {} => match stop_entry(log_file, now) {
                Ok(()) => Ok(Reply::Stopped),
                Err(refusal) => Err(refusal),
            },
            Command::List { what } => match what {
                ListCommand::Projects => Ok(Reply::Projects { names: list_projects(log_file) }),
                ListCommand::Entries { period } => Ok(
                    Reply::Entries { entries: entries_in_period(log_file, period, now) },
                ),
            },
            Command::Delete { id } => match delete_entry(log_file, id) {
                Ok(()) => Ok(Reply::Deleted),
                Err(refusal) => Err(refusal),
            },
            Command::Update { id, start, end } => match update_entry(log_file, id, start, end) {
                Ok(()) => Ok(Reply::Updated),
                Err(refusal) => Err(refusal),
            },
            Command::Report { period, project, tag } => Ok(
                Reply::Report { entries: fetch_entries(log_file, period, project, tag, now) },
            ),
            Command::Project { cmd } => match cmd {
                ProjectCommand::New { name } => {
                    let created = Reply::ProjectCreated { name: name.clone() };
                    match create_project(log_file, name) {
                        Ok(()) => Ok(created),
                        Err(refusal) => Err(refusal),
                    }
                },
                ProjectCommand::Delete { name } => {
                    let deleted = Reply::ProjectDeleted { name: name.clone() };
                    match delete_project(log_file, name) {
                        Ok(()) => Ok(deleted),
                        Err(refusal) => Err(refusal),
                    }
                },
            },
        }
    }
}

} // verus!
