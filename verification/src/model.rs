//! The mathematical model of the document: what each operation means,
//! stated on sequences, independent of how the document is stored.

use vstd::prelude::*;
use crate::error::LogError;
use crate::time::{Period, Timestamp};

verus! {

/// One work session, as contracts see it.
pub struct EntryView {
    pub id: int,
    pub project: Seq<char>,
    pub tag: Option<Seq<char>>,
    pub start: Timestamp,
    pub end: Option<Timestamp>,
}

/// The document, as contracts see it: project names in registration order,
/// entries in storage order.
pub struct LogView {
    pub projects: Seq<Seq<char>>,
    pub entries: Seq<EntryView>,
}

impl EntryView {
    /// A session is running while it has no end.
    pub open spec fn is_open(self) -> bool {
        self.end is None
    }

    /// The same session, ended at `at`.
    pub open spec fn closed_at(self, at: Timestamp) -> EntryView {
        EntryView { end: Some(at), ..self }
    }

    /// The same session, rewritten to run from `start` to `end`.
    pub open spec fn rewritten(self, start: Timestamp, end: Timestamp) -> EntryView {
        EntryView { start, end: Some(end), ..self }
    }

    /// Whether a query for `project`, optionally narrowed to `tag`, over
    /// `period` as seen from `now`, selects this session.
    pub open spec fn matches(
        self,
        period: Period,
        project: Seq<char>,
        tag: Option<Seq<char>>,
        now: Timestamp,
    ) -> bool {
        &&& period.holds(self.start, now)
        &&& self.project == project
        &&& tag is Some ==> self.tag == tag
    }
}

/// `i` is the position of the first running entry.
pub open spec fn is_first_open(entries: Seq<EntryView>, i: int) -> bool {
    &&& 0 <= i < entries.len()
    &&& entries[i].is_open()
    &&& forall|j: int| 0 <= j < i ==> !(#[trigger] entries[j]).is_open()
}

/// `i` is the position of the first entry that carries `id`.
pub open spec fn is_first_with_id(entries: Seq<EntryView>, id: int, i: int) -> bool {
    &&& 0 <= i < entries.len()
    &&& entries[i].id == id
    &&& forall|j: int| 0 <= j < i ==> (#[trigger] entries[j]).id != id
}

/// Some entry is running.
pub open spec fn any_open(entries: Seq<EntryView>) -> bool {
    exists|i: int| 0 <= i < entries.len() && (#[trigger] entries[i]).is_open()
}

/// No two entries are running at once.
pub open spec fn at_most_one_open(entries: Seq<EntryView>) -> bool {
    forall|i: int, j: int|
        0 <= i < j < entries.len() ==> !((#[trigger] entries[i]).is_open()
            && (#[trigger] entries[j]).is_open())
}

/// The ledger with its first running entry, if any, ended at `at`.
pub open spec fn close_running(entries: Seq<EntryView>, at: Timestamp) -> Seq<EntryView> {
    Seq::new(
        entries.len(),
        |i: int|
            if is_first_open(entries, i) {
                entries[i].closed_at(at)
            } else {
                entries[i]
            },
    )
}

/// The ledger with the first entry that carries `id`, if any, rewritten.
pub open spec fn rewrite_entry(
    entries: Seq<EntryView>,
    id: int,
    start: Timestamp,
    end: Timestamp,
) -> Seq<EntryView> {
    Seq::new(
        entries.len(),
        |i: int|
            if is_first_with_id(entries, id, i) {
                entries[i].rewritten(start, end)
            } else {
                entries[i]
            },
    )
}

/// The id given to the next entry: the current entry count, cut to 32 bits.
pub open spec fn next_id(entries: Seq<EntryView>) -> int {
    (entries.len() as i32) as int
}

/// Selects the project names other than `name`.
pub open spec fn other_name(name: Seq<char>) -> spec_fn(Seq<char>) -> bool {
    |p: Seq<char>| p != name
}

/// Selects the entries that do not carry `id`.
pub open spec fn other_id(id: int) -> spec_fn(EntryView) -> bool {
    |e: EntryView| e.id != id
}

/// Selects the entries that started within `period`, as seen from `now`.
pub open spec fn started_in(period: Period, now: Timestamp) -> spec_fn(EntryView) -> bool {
    |e: EntryView| period.holds(e.start, now)
}

/// Selects the entries that a query selects.
pub open spec fn selected_by(
    period: Period,
    project: Seq<char>,
    tag: Option<Seq<char>>,
    now: Timestamp,
) -> spec_fn(EntryView) -> bool {
    |e: EntryView| e.matches(period, project, tag, now)
}

/// How a mutating operation relates the documents before and after it to
/// its outcome: where the model takes the step, the operation succeeds and
/// the document is the model's next one; where the model refuses, the
/// operation fails with that refusal and the document is as before.
pub open spec fn applied(
    before: LogView,
    step: Result<LogView, LogError>,
    outcome: Result<(), LogError>,
    after: LogView,
) -> bool {
    match step {
        Ok(next) => outcome is Ok && after == next,
        Err(refusal) => outcome == Err::<(), LogError>(refusal) && after == before,
    }
}

impl LogView {
    /// The document's invariant: no two sessions run at once, and no two
    /// projects share a name.
    pub open spec fn well_formed(self) -> bool {
        &&& at_most_one_open(self.entries)
        &&& self.projects.no_duplicates()
    }

    /// The document with no projects and no entries.
    pub open spec fn empty() -> LogView {
        LogView { projects: Seq::empty(), entries: Seq::empty() }
    }

    /// A project called `name` is registered.
    pub open spec fn has_project(self, name: Seq<char>) -> bool {
        self.projects.contains(name)
    }

    /// The project called `name` has a running session.
    pub open spec fn project_started(self, name: Seq<char>) -> bool {
        exists|i: int|
            0 <= i < self.entries.len() && (#[trigger] self.entries[i]).project == name
                && self.entries[i].is_open()
    }

    /// Some entry carries `id`.
    pub open spec fn has_entry(self, id: int) -> bool {
        exists|i: int| 0 <= i < self.entries.len() && (#[trigger] self.entries[i]).id == id
    }

    /// Registering a project: refused when the name is taken, else the name
    /// goes to the end of the registry.
    pub open spec fn create_project(self, name: Seq<char>) -> Result<LogView, LogError> {
        if self.has_project(name) {
            Err(LogError::AlreadyExists)
        } else {
            Ok(LogView { projects: self.projects.push(name), ..self })
        }
    }

    /// Removing a project: refused when the name is unknown, else the name
    /// leaves the registry. Entries are not touched.
    pub open spec fn delete_project(self, name: Seq<char>) -> Result<LogView, LogError> {
        if !self.has_project(name) {
            Err(LogError::NotFound)
        } else {
            Ok(LogView { projects: self.projects.filter(other_name(name)), ..self })
        }
    }

    /// Starting a session at `at`: refused for an unknown project, then for a
    /// project that is already running; else whatever was running is ended
    /// at `at` and a new running entry goes to the end of the ledger.
    pub open spec fn start_entry(
        self,
        project: Seq<char>,
        tag: Option<Seq<char>>,
        at: Timestamp,
    ) -> Result<LogView, LogError> {
        if !self.has_project(project) {
            Err(LogError::ProjectNotFound)
        } else if self.project_started(project) {
            Err(LogError::AlreadyRunning)
        } else {
            let opened = EntryView {
                id: next_id(self.entries),
                project,
                tag,
                start: at,
                end: None,
            };
            Ok(LogView { entries: close_running(self.entries, at).push(opened), ..self })
        }
    }

    /// Stopping at `now`: refused when nothing is running, else the running
    /// entry ends at `now`.
    pub open spec fn stop_entry(self, now: Timestamp) -> Result<LogView, LogError> {
        if !any_open(self.entries) {
            Err(LogError::NoEntryRunning)
        } else {
            Ok(LogView { entries: close_running(self.entries, now), ..self })
        }
    }

    /// Rewriting the times of the entry that carries `id`: refused when no
    /// entry does.
    pub open spec fn update_entry(self, id: int, start: Timestamp, end: Timestamp) -> Result<
        LogView,
        LogError,
    > {
        if !self.has_entry(id) {
            Err(LogError::EntryNotFound)
        } else {
            Ok(LogView { entries: rewrite_entry(self.entries, id, start, end), ..self })
        }
    }

    /// Rewriting the times of the entry that carries `id` from two pieces of
    /// text, given what was read from each: refused when either was not a
    /// timestamp, then as for times.
    pub open spec fn update_entry_text(
        self,
        id: int,
        start: Option<Timestamp>,
        end: Option<Timestamp>,
    ) -> Result<LogView, LogError> {
        match (start, end) {
            (Some(from), Some(to)) => self.update_entry(id, from, to),
            _ => Err(LogError::ParseError),
        }
    }

    /// Deleting the entry that carries `id`: refused when no entry does.
    pub open spec fn delete_entry(self, id: int) -> Result<LogView, LogError> {
        if !self.has_entry(id) {
            Err(LogError::EntryNotFound)
        } else {
            Ok(LogView { entries: self.entries.filter(other_id(id)), ..self })
        }
    }

    /// The entries that started within `period`, in storage order.
    pub open spec fn entries_in(self, period: Period, now: Timestamp) -> Seq<EntryView> {
        self.entries.filter(started_in(period, now))
    }

    /// The entries a query selects, in storage order.
    pub open spec fn fetch_entries(
        self,
        period: Period,
        project: Seq<char>,
        tag: Option<Seq<char>>,
        now: Timestamp,
    ) -> Seq<EntryView> {
        self.entries.filter(selected_by(period, project, tag, now))
    }
}

} // verus!
