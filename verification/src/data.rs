//! The document and the operations on it.

use vstd::prelude::*;
use crate::error::LogError;
use crate::laws::{
    lemma_create_project_keeps_invariant, lemma_delete_entry_keeps_invariant,
    lemma_delete_project_keeps_invariant, lemma_filter_in_place_step, lemma_filter_take_step,
    lemma_start_entry_keeps_single_open, lemma_stop_entry_keeps_single_open,
    lemma_update_entry_keeps_invariant,
};
use crate::model::{
    any_open, applied, close_running, is_first_open, is_first_with_id, other_id, other_name,
    rewrite_entry, selected_by, started_in, EntryView, LogView,
};
use crate::time::{Period, Timestamp};

verus! {

/// A named project.
#[derive(Debug, PartialEq, Eq)]
pub struct ProjectDef {
    pub name: String,
}

/// One recorded or running work session.
#[derive(Debug, PartialEq, Eq)]
pub struct TimeEntry {
    pub id: i32,
    pub project: String,
    pub tag: Option<String>,
    pub start: Timestamp,
    pub end: Option<Timestamp>,
}

/// The whole persisted state: the project registry and the entry ledger.
#[derive(Debug, PartialEq, Eq)]
pub struct LogFile {
    pub projects: Vec<ProjectDef>,
    pub entries: Vec<TimeEntry>,
}

/// What a tag is to a contract: its characters, if there is a tag.
pub open spec fn tag_view(tag: Option<String>) -> Option<Seq<char>> {
    match tag {
        Some(t) => Some(t@),
        None => None,
    }
}

impl View for ProjectDef {
    type V = Seq<char>;

    open spec fn view(&self) -> Seq<char> {
        self.name@
    }
}

impl View for TimeEntry {
    type V = EntryView;

    open spec fn view(&self) -> EntryView {
        EntryView {
            id: self.id as int,
            project: self.project@,
            tag: tag_view(self.tag),
            start: self.start,
            end: self.end,
        }
    }
}

/// The names of a stored registry.
pub open spec fn names_of(projects: Seq<ProjectDef>) -> Seq<Seq<char>> {
    projects.map_values(|p: ProjectDef| p@)
}

/// The sessions of a stored ledger.
pub open spec fn views_of(entries: Seq<TimeEntry>) -> Seq<EntryView> {
    entries.map_values(|e: TimeEntry| e@)
}

impl View for LogFile {
    type V = LogView;

    open spec fn view(&self) -> LogView {
        LogView { projects: names_of(self.projects@), entries: views_of(self.entries@) }
    }
}

impl Clone for ProjectDef {
    fn clone(&self) -> (copy: Self)
        ensures
            copy == *self,
    {
        ProjectDef { name: self.name.clone() }
    }
}

impl Clone for TimeEntry {
    fn clone(&self) -> (copy: Self)
        ensures
            copy == *self,
    {
        let tag = match &self.tag {
            Some(t) => Some(t.clone()),
            None => None,
        };
        TimeEntry {
            id: self.id,
            project: self.project.clone(),
            tag,
            start: self.start,
            end: self.end,
        }
    }
}

/// Whether a project called `project` is registered.
pub fn check_project_exists(log_file: &LogFile, project: &str) -> (known: bool)
    ensures
        known == log_file@.has_project(project@),
{
    let wanted = project.to_owned();
    let mut i: usize = 0;
    while i < log_file.projects.len()
        invariant
            i <= log_file.projects.len(),
            wanted@ == project@,
            forall|j: int| 0 <= j < i ==> (#[trigger] log_file@.projects[j]) != project@,
        decreases log_file.projects.len() - i,
    {
        if log_file.projects[i].name == wanted {
            assert(log_file@.projects[i as int] == project@);
            return true;
        }
        i += 1;
    }
    false
}

/// Whether `project` has a running session.
pub fn check_project_started(log_file: &LogFile, project: &str) -> (running: bool)
    ensures
        running == log_file@.project_started(project@),
{
    let wanted = project.to_owned();
    let mut i: usize = 0;
    while i < log_file.entries.len()
        invariant
            i <= log_file.entries.len(),
            wanted@ == project@,
            forall|j: int|
                0 <= j < i ==> !((#[trigger] log_file@.entries[j]).project == project@
                    && log_file@.entries[j].is_open()),
        decreases log_file.entries.len() - i,
    {
        let entry = &log_file.entries[i];
        if entry.project == wanted && entry.end.is_none() {
            assert(log_file@.entries[i as int].project == project@);
            assert(log_file@.entries[i as int].is_open());
            return true;
        }
        i += 1;
    }
    false
}

/// The first running entry, if any entry is running, handed out for
/// writing: what the caller writes to it is written to the ledger, in the
/// entry's place. Nothing else in the document changes.
pub fn check_any_project_started(log_file: &mut LogFile) -> (running: Option<&mut TimeEntry>)
    ensures
        final(log_file).projects == old(log_file).projects,
        running matches Some(entry) ==> exists|i: int|
            (#[trigger] is_first_open(old(log_file)@.entries, i))
                && *entry == old(log_file).entries@[i]
                && final(log_file).entries@ == old(log_file).entries@.update(i, *final(entry)),
        running is None ==> !any_open(old(log_file)@.entries),
        running is None ==> final(log_file).entries == old(log_file).entries,
{
    let mut i: usize = 0;
    while i < log_file.entries.len()
        invariant
            i <= log_file.entries.len(),
            *log_file == *old(log_file),
            forall|j: int| 0 <= j < i ==> !(#[trigger] log_file@.entries[j]).is_open(),
        decreases log_file.entries.len() - i,
    {
        if log_file.entries[i].end.is_none() {
            assert(is_first_open(log_file@.entries, i as int));
            return Some(&mut log_file.entries[i]);
        }
        i += 1;
    }
    None
}

/// Whether a query selects `entry`.
pub fn entry_matches(
    entry: &TimeEntry,
    period: Period,
    project: &String,
    tag: &Option<String>,
    now: &Timestamp,
) -> (selected: bool)
    ensures
        selected == entry@.matches(period, project@, tag_view(*tag), *now),
{
    let in_period = period.contains(&entry.start, now);
    let in_project = entry.project == *project;
    match tag {
        Some(wanted) => {
            let in_tag = match &entry.tag {
                Some(t) => *t == *wanted,
                None => false,
            };
            in_period && in_project && in_tag
        },
        None => in_period && in_project,
    }
}

/// The entries of `project` that started within `period` as seen from `now`,
/// narrowed to `tag` where one is given, in storage order.
pub fn fetch_entries(
    log_file: &LogFile,
    period: Period,
    project: String,
    tag: Option<String>,
    now: Timestamp,
) -> (found: Vec<TimeEntry>)
    ensures
        views_of(found@) == log_file@.fetch_entries(period, project@, tag_view(tag), now),
{
    let mut found: Vec<TimeEntry> = Vec::new();
    let ghost all = log_file@.entries;
    let ghost pred = selected_by(period, project@, tag_view(tag), now);
    let mut i: usize = 0;
    while i < log_file.entries.len()
        invariant
            i <= log_file.entries.len(),
            all == views_of(log_file.entries@),
            pred == selected_by(period, project@, tag_view(tag), now),
            views_of(found@) == all.take(i as int).filter(pred),
        decreases log_file.entries.len() - i,
    {
        let entry = &log_file.entries[i];
        proof {
            lemma_filter_take_step(all, pred, i as int);
        }
        if entry_matches(entry, period, &project, &tag, &now) {
            let copy = entry.clone();
            found.push(copy);
            assert(views_of(found@) =~= all.take(i as int).filter(pred).push(all[i as int]));
        }
        i += 1;
    }
    assert(all.take(i as int) =~= all);
    found
}

/// The entries that started within `period` as seen from `now`, in storage
/// order.
pub fn entries_in_period(
    log_file: &LogFile,
    period: Period,
    now: Timestamp,
) -> (found: Vec<TimeEntry>)
    ensures
        views_of(found@) == log_file@.entries_in(period, now),
{
    let mut found: Vec<TimeEntry> = Vec::new();
    let ghost all = log_file@.entries;
    let ghost pred = started_in(period, now);
    let mut i: usize = 0;
    while i < log_file.entries.len()
        invariant
            i <= log_file.entries.len(),
            all == views_of(log_file.entries@),
            pred == started_in(period, now),
            views_of(found@) == all.take(i as int).filter(pred),
        decreases log_file.entries.len() - i,
    {
        let entry = &log_file.entries[i];
        proof {
            lemma_filter_take_step(all, pred, i as int);
        }
        if period.contains(&entry.start, &now) {
            let copy = entry.clone();
            found.push(copy);
            assert(views_of(found@) =~= all.take(i as int).filter(pred).push(all[i as int]));
        }
        i += 1;
    }
    assert(all.take(i as int) =~= all);
    found
}

/// Starts a session for `project` at `start`.
///
/// Refused with `ProjectNotFound` when the project is not registered, and
/// with `AlreadyRunning` when it already has a running session. Otherwise
/// whatever session was running ends at `start`, and a new running entry,
/// whose id is the entry count before the call, goes to the end of the ledger.
pub fn start_entry(
    log_file: &mut LogFile,
    project: String,
    tag: Option<String>,
    start: Timestamp,
) -> (outcome: Result<(), LogError>)
    ensures
        applied(
            old(log_file)@,
            old(log_file)@.start_entry(project@, tag_view(tag), start),
            outcome,
            final(log_file)@,
        ),
        old(log_file)@.well_formed() ==> final(log_file)@.well_formed(),
{
    proof {
        if log_file@.well_formed() {
            lemma_start_entry_keeps_single_open(log_file@, project@, tag_view(tag), start);
        }
    }
    if !check_project_exists(log_file, project.as_str()) {
        return Err(LogError::ProjectNotFound);
    }
    if check_project_started(log_file, project.as_str()) {
        return Err(LogError::AlreadyRunning);
    }
    if let Some(entry) = check_any_project_started(log_file) {
        entry.end = Some(start);
    }
    let ghost closed = log_file@.entries;
    assert(closed =~= close_running(old(log_file)@.entries, start));
    let id = #[verifier::truncate] (log_file.entries.len() as i32);
    let entry = TimeEntry { id, project, tag, start, end: None };
    log_file.entries.push(entry);
    assert(log_file@.entries =~= closed.push(entry@));
    Ok(())
}

/// Ends the running session at `now`.
///
/// Refused with `NoEntryRunning` when no entry is running.
pub fn stop_entry(log_file: &mut LogFile, now: Timestamp) -> (outcome: Result<(), LogError>)
    ensures
        applied(
            old(log_file)@,
            old(log_file)@.stop_entry(now),
            outcome,
            final(log_file)@,
        ),
        old(log_file)@.well_formed() ==> final(log_file)@.well_formed(),
{
    proof {
        if log_file@.well_formed() {
            lemma_stop_entry_keeps_single_open(log_file@, now);
        }
    }
    if let Some(entry) = check_any_project_started(log_file) {
        entry.end = Some(now);
        assert(log_file@.entries =~= close_running(old(log_file)@.entries, now));
        Ok(())
    } else {
        Err(LogError::NoEntryRunning)
    }
}

/// The position of the first entry that carries `id`, if any entry does.
pub fn find_entry(log_file: &LogFile, id: i32) -> (found: Option<usize>)
    ensures
        found matches Some(i) ==> is_first_with_id(log_file@.entries, id as int, i as int),
        found is None ==> !log_file@.has_entry(id as int),
{
    let mut i: usize = 0;
    while i < log_file.entries.len()
        invariant
            i <= log_file.entries.len(),
            forall|j: int| 0 <= j < i ==> (#[trigger] log_file@.entries[j]).id != id,
        decreases log_file.entries.len() - i,
    {
        if log_file.entries[i].id == id {
            assert(log_file@.entries[i as int].id == id);
            return Some(i);
        }
        i += 1;
    }
    None
}

/// Rewrites the times of the entry that carries `id`: it then runs from
/// `start` to `end`.
///
/// Refused with `EntryNotFound` when no entry carries `id`.
pub fn set_entry_times(
    log_file: &mut LogFile,
    id: i32,
    start: Timestamp,
    end: Timestamp,
) -> (outcome: Result<(), LogError>)
    ensures
        applied(
            old(log_file)@,
            old(log_file)@.update_entry(id as int, start, end),
            outcome,
            final(log_file)@,
        ),
        old(log_file)@.well_formed() ==> final(log_file)@.well_formed(),
{
    proof {
        if log_file@.well_formed() {
            lemma_update_entry_keeps_invariant(log_file@, id as int, start, end);
        }
    }
    match find_entry(log_file, id) {
        Some(i) => {
            log_file.entries[i].start = start;
            log_file.entries[i].end = Some(end);
            assert(log_file@.entries =~= rewrite_entry(
                old(log_file)@.entries,
                id as int,
                start,
                end,
            ));
            Ok(())
        },
        None => Err(LogError::EntryNotFound),
    }
}

/// Rewrites the times of the entry that carries `id` from two timestamps
/// written as `YYYY-MM-DD HH:MM`.
///
/// Refused with `ParseError` when either text is not such a timestamp, then
/// with `EntryNotFound` when no entry carries `id`.
pub fn update_entry(
    log_file: &mut LogFile,
    id: i32,
    start: String,
    end: String,
) -> (outcome: Result<(), LogError>)
    ensures
        applied(
            old(log_file)@,
            old(log_file)@.update_entry_text(
                id as int,
                Timestamp::parsed(start@),
                Timestamp::parsed(end@),
            ),
            outcome,
            final(log_file)@,
        ),
        old(log_file)@.well_formed() ==> final(log_file)@.well_formed(),
{
    let from = match Timestamp::parse(start.as_str()) {
        Some(t) => t,
        None => {
            return Err(LogError::ParseError);
        },
    };
    let to = match Timestamp::parse(end.as_str()) {
        Some(t) => t,
        None => {
            return Err(LogError::ParseError);
        },
    };
    set_entry_times(log_file, id, from, to)
}

/// Removes every entry that carries `id`, keeping the others in order.
fn remove_entries_with_id(entries: &mut Vec<TimeEntry>, id: i32)
    ensures
        views_of(final(entries)@) == views_of(old(entries)@).filter(other_id(id as int)),
{
    let ghost all = views_of(entries@);
    let ghost pred = other_id(id as int);
    let ghost mut seen: int = 0;
    let mut i: usize = 0;
    while i < entries.len()
        invariant
            i <= entries.len(),
            0 <= seen <= all.len(),
            entries.len() - i == all.len() - seen,
            pred == other_id(id as int),
            views_of(entries@).take(i as int) == all.take(seen).filter(pred),
            views_of(entries@).skip(i as int) == all.skip(seen),
        decreases entries.len() - i,
    {
        let ghost current = views_of(entries@);
        proof {
            lemma_filter_in_place_step(all, pred, seen, current, i as int);
            seen = seen + 1;
        }
        if entries[i].id == id {
            entries.remove(i);
            assert(views_of(entries@) =~= current.remove(i as int));
        } else {
            i += 1;
        }
    }
    assert(views_of(entries@).take(i as int) =~= views_of(entries@));
    assert(all.take(seen) =~= all);
}

/// Deletes the entry that carries `id`.
///
/// Refused with `EntryNotFound` when no entry carries `id`.
pub fn delete_entry(log_file: &mut LogFile, id: i32) -> (outcome: Result<(), LogError>)
    ensures
        applied(
            old(log_file)@,
            old(log_file)@.delete_entry(id as int),
            outcome,
            final(log_file)@,
        ),
        old(log_file)@.well_formed() ==> final(log_file)@.well_formed(),
{
    proof {
        if log_file@.well_formed() {
            lemma_delete_entry_keeps_invariant(log_file@, id as int);
        }
    }
    match find_entry(log_file, id) {
        Some(_) => {
            remove_entries_with_id(&mut log_file.entries, id);
            Ok(())
        },
        None => Err(LogError::EntryNotFound),
    }
}

/// Registers a project called `name`.
///
/// Refused with `AlreadyExists` when a project of that name is registered.
pub fn create_project(log_file: &mut LogFile, name: String) -> (outcome: Result<(), LogError>)
    ensures
        applied(
            old(log_file)@,
            old(log_file)@.create_project(name@),
            outcome,
            final(log_file)@,
        ),
        old(log_file)@.well_formed() ==> final(log_file)@.well_formed(),
{
    proof {
        if log_file@.well_formed() {
            lemma_create_project_keeps_invariant(log_file@, name@);
        }
    }
    if !check_project_exists(log_file, name.as_str()) {
        let ghost before = log_file@.projects;
        log_file.projects.push(ProjectDef { name });
        assert(log_file@.projects =~= before.push(name@));
        Ok(())
    } else {
        Err(LogError::AlreadyExists)
    }
}

/// Removes every project called `name`, keeping the others in order.
fn remove_projects_named(projects: &mut Vec<ProjectDef>, name: &String)
    ensures
        names_of(final(projects)@) == names_of(old(projects)@).filter(other_name(name@)),
{
    let ghost all = names_of(projects@);
    let ghost pred = other_name(name@);
    let ghost mut seen: int = 0;
    let mut i: usize = 0;
    while i < projects.len()
        invariant
            i <= projects.len(),
            0 <= seen <= all.len(),
            projects.len() - i == all.len() - seen,
            pred == other_name(name@),
            names_of(projects@).take(i as int) == all.take(seen).filter(pred),
            names_of(projects@).skip(i as int) == all.skip(seen),
        decreases projects.len() - i,
    {
        let ghost current = names_of(projects@);
        proof {
            lemma_filter_in_place_step(all, pred, seen, current, i as int);
            seen = seen + 1;
        }
        if projects[i].name == *name {
            projects.remove(i);
            assert(names_of(projects@) =~= current.remove(i as int));
        } else {
            i += 1;
        }
    }
    assert(names_of(projects@).take(i as int) =~= names_of(projects@));
    assert(all.take(seen) =~= all);
}

/// Removes the project called `name` from the registry. Entries recorded
/// against it stay in the ledger.
///
/// Refused with `NotFound` when no project of that name is registered.
pub fn delete_project(log_file: &mut LogFile, name: String) -> (outcome: Result<(), LogError>)
    ensures
        applied(
            old(log_file)@,
            old(log_file)@.delete_project(name@),
            outcome,
            final(log_file)@,
        ),
        old(log_file)@.well_formed() ==> final(log_file)@.well_formed(),
{
    proof {
        if log_file@.well_formed() {
            lemma_delete_project_keeps_invariant(log_file@, name@);
        }
    }
    if check_project_exists(log_file, name.as_str()) {
        remove_projects_named(&mut log_file.projects, &name);
        Ok(())
    } else {
        Err(LogError::NotFound)
    }
}

/// The names of the registered projects, in registration order.
pub fn list_projects(log_file: &LogFile) -> (names: Vec<String>)
    ensures
        names.deep_view() == log_file@.projects,
{
    let mut names: Vec<String> = Vec::new();
    let mut i: usize = 0;
    while i < log_file.projects.len()
        invariant
            i <= log_file.projects.len(),
            names.deep_view() == log_file@.projects.take(i as int),
        decreases log_file.projects.len() - i,
    {
        let name = log_file.projects[i].name.clone();
        let ghost before = names.deep_view();
        names.push(name);
        assert(names.deep_view() =~= before.push(log_file@.projects[i as int]));
        assert(log_file@.projects.take(i + 1) =~= log_file@.projects.take(i as int).push(
            log_file@.projects[i as int],
        ));
        i += 1;
    }
    assert(log_file@.projects.take(i as int) =~= log_file@.projects);
    names
}

/// The whole ledger, in storage order.
pub fn list_entries(log_file: LogFile) -> (entries: Vec<TimeEntry>)
    ensures
        entries == log_file.entries,
{
    log_file.entries
}

impl LogFile {
    /// The document a fresh store starts from: no projects, no entries.
    pub fn new() -> (log_file: LogFile)
        ensures
            log_file@ == LogView::empty(),
            log_file@.well_formed(),
    {
        let log_file = LogFile { projects: Vec::new(), entries: Vec::new() };
        assert(log_file@.projects =~= Seq::<Seq<char>>::empty());
        assert(log_file@.entries =~= Seq::<EntryView>::empty());
        log_file
    }
}

} // verus!
