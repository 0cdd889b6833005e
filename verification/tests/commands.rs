use timelog::{
    Cli, Command, ListCommand, LogError, LogFile, Period, ProjectCommand, ProjectDef, Reply,
    TimeEntry, Timestamp,
};

fn clock(hour: u32, minute: u32) -> Timestamp {
    Timestamp {
        year: 2024,
        month: 3,
        day: 15,
        hour,
        minute,
        second: 0,
        nanosecond: 0,
        offset: Some(-18000),
    }
}

fn run(log_file: &mut LogFile, cmd: Command, now: Timestamp) -> Result<Reply, LogError> {
    Cli { cmd }.run(log_file, now)
}

fn new_project(name: &str) -> Command {
    Command::Project { cmd: ProjectCommand::New { name: name.to_string() } }
}

fn start(project: &str, tag: Option<&str>) -> Command {
    Command::Start { project: project.to_string(), tag: tag.map(|t| t.to_string()) }
}

fn session(id: i32, project: &str, tag: Option<&str>, start: Timestamp, end: Option<Timestamp>) -> TimeEntry {
    TimeEntry { id, project: project.to_string(), tag: tag.map(|t| t.to_string()), start, end }
}

#[test]
fn project_new_registers() {
    let mut log_file = LogFile::new();
    let reply = run(&mut log_file, new_project("a"), clock(9, 0));
    assert_eq!(reply, Ok(Reply::ProjectCreated { name: "a".to_string() }));
    assert_eq!(log_file.projects, vec![ProjectDef { name: "a".to_string() }]);
    assert_eq!(run(&mut log_file, new_project("a"), clock(9, 0)), Err(LogError::AlreadyExists));
}

#[test]
fn project_delete_removes() {
    let mut log_file = LogFile::new();
    assert!(run(&mut log_file, new_project("a"), clock(9, 0)).is_ok());
    let delete = Command::Project { cmd: ProjectCommand::Delete { name: "a".to_string() } };
    assert_eq!(
        run(&mut log_file, delete, clock(9, 0)),
        Ok(Reply::ProjectDeleted { name: "a".to_string() })
    );
    assert!(log_file.projects.is_empty());
    let delete = Command::Project { cmd: ProjectCommand::Delete { name: "a".to_string() } };
    assert_eq!(run(&mut log_file, delete, clock(9, 0)), Err(LogError::NotFound));
}

#[test]
fn start_uses_now_as_the_start_time() {
    let mut log_file = LogFile::new();
    assert!(run(&mut log_file, new_project("a"), clock(9, 0)).is_ok());
    assert_eq!(
        run(&mut log_file, start("a", Some("t")), clock(9, 5)),
        Ok(Reply::Started { project: "a".to_string(), tag: Some("t".to_string()), start: clock(9, 5) })
    );
    assert_eq!(log_file.entries, vec![session(0, "a", Some("t"), clock(9, 5), None)]);
    assert_eq!(run(&mut log_file, start("a", None), clock(9, 6)), Err(LogError::AlreadyRunning));
    assert_eq!(run(&mut log_file, start("b", None), clock(9, 7)), Err(LogError::ProjectNotFound));
    assert_eq!(log_file.entries, vec![session(0, "a", Some("t"), clock(9, 5), None)]);
}

#[test]
fn stop_uses_now_as_the_end_time() {
    let mut log_file = LogFile::new();
    assert_eq!(run(&mut log_file, Command::Stop {}, clock(9, 0)), Err(LogError::NoEntryRunning));
    assert!(run(&mut log_file, new_project("a"), clock(9, 0)).is_ok());
    assert!(run(&mut log_file, start("a", None), clock(9, 5)).is_ok());
    assert_eq!(run(&mut log_file, Command::Stop {}, clock(9, 45)), Ok(Reply::Stopped));
    assert_eq!(log_file.entries, vec![session(0, "a", None, clock(9, 5), Some(clock(9, 45)))]);
}

#[test]
fn list_projects_replies_with_the_names() {
    let mut log_file = LogFile::new();
    assert!(run(&mut log_file, new_project("b"), clock(9, 0)).is_ok());
    assert!(run(&mut log_file, new_project("a"), clock(9, 0)).is_ok());
    let list = Command::List { what: ListCommand::Projects };
    assert_eq!(
        run(&mut log_file, list, clock(9, 0)),
        Ok(Reply::Projects { names: vec!["b".to_string(), "a".to_string()] })
    );
    assert_eq!(log_file.projects.len(), 2);
}

#[test]
fn list_entries_applies_the_period_only() {
    let mut log_file = LogFile::new();
    let mut last_year = clock(8, 0);
    last_year.year = 2023;
    log_file.entries = vec![
        session(0, "a", None, last_year, Some(last_year)),
        session(1, "b", Some("t"), clock(9, 0), Some(clock(10, 0))),
        session(2, "c", None, clock(11, 0), None),
    ];
    let list = Command::List { what: ListCommand::Entries { period: Period::Year } };
    assert_eq!(
        run(&mut log_file, list, clock(12, 0)),
        Ok(Reply::Entries {
            entries: vec![
                session(1, "b", Some("t"), clock(9, 0), Some(clock(10, 0))),
                session(2, "c", None, clock(11, 0), None),
            ]
        })
    );
    let list = Command::List { what: ListCommand::Entries { period: Period::All } };
    match run(&mut log_file, list, clock(12, 0)) {
        Ok(Reply::Entries { entries }) => assert_eq!(entries, log_file.entries),
        other => panic!("unexpected reply {:?}", other),
    }
}

#[test]
fn delete_removes_the_entry() {
    let mut log_file = LogFile::new();
    assert!(run(&mut log_file, new_project("a"), clock(9, 0)).is_ok());
    assert!(run(&mut log_file, start("a", None), clock(9, 5)).is_ok());
    assert_eq!(run(&mut log_file, Command::Delete { id: 3 }, clock(9, 6)), Err(LogError::EntryNotFound));
    assert_eq!(run(&mut log_file, Command::Delete { id: 0 }, clock(9, 6)), Ok(Reply::Deleted));
    assert!(log_file.entries.is_empty());
}

#[test]
fn update_rewrites_the_entry() {
    let mut log_file = LogFile::new();
    assert!(run(&mut log_file, new_project("a"), clock(9, 0)).is_ok());
    assert!(run(&mut log_file, start("a", None), clock(9, 5)).is_ok());
    let update = Command::Update {
        id: 0,
        start: "2024-03-15 08:00".to_string(),
        end: "2024-03-15 08:30".to_string(),
    };
    assert_eq!(run(&mut log_file, update, clock(9, 6)), Ok(Reply::Updated));
    let from = Timestamp { year: 2024, month: 3, day: 15, hour: 8, minute: 0, second: 0, nanosecond: 0, offset: None };
    let to = Timestamp { minute: 30, ..from };
    assert_eq!(log_file.entries, vec![session(0, "a", None, from, Some(to))]);
    let update = Command::Update { id: 0, start: "8 o'clock".to_string(), end: "2024-03-15 08:30".to_string() };
    assert_eq!(run(&mut log_file, update, clock(9, 6)), Err(LogError::ParseError));
    let update = Command::Update {
        id: 5,
        start: "2024-03-15 08:00".to_string(),
        end: "2024-03-15 08:30".to_string(),
    };
    assert_eq!(run(&mut log_file, update, clock(9, 6)), Err(LogError::EntryNotFound));
    assert_eq!(log_file.entries, vec![session(0, "a", None, from, Some(to))]);
}

#[test]
fn report_selects_by_period_project_and_tag() {
    let mut log_file = LogFile::new();
    let mut last_month = clock(8, 0);
    last_month.month = 2;
    log_file.entries = vec![
        session(0, "a", Some("t"), last_month, Some(last_month)),
        session(1, "a", Some("t"), clock(9, 0), Some(clock(10, 0))),
        session(2, "b", Some("t"), clock(10, 0), Some(clock(11, 0))),
        session(3, "a", None, clock(11, 0), None),
    ];
    let report = Command::Report { period: Period::Month, project: "a".to_string(), tag: None };
    assert_eq!(
        run(&mut log_file, report, clock(12, 0)),
        Ok(Reply::Report {
            entries: vec![
                session(1, "a", Some("t"), clock(9, 0), Some(clock(10, 0))),
                session(3, "a", None, clock(11, 0), None),
            ]
        })
    );
    let report = Command::Report {
        period: Period::All,
        project: "a".to_string(),
        tag: Some("t".to_string()),
    };
    assert_eq!(
        run(&mut log_file, report, clock(12, 0)),
        Ok(Reply::Report {
            entries: vec![
                session(0, "a", Some("t"), last_month, Some(last_month)),
                session(1, "a", Some("t"), clock(9, 0), Some(clock(10, 0))),
            ]
        })
    );
    assert_eq!(log_file.entries.len(), 4);
}

#[test]
fn replies_of_reading_commands_change_nothing() {
    assert!(!Reply::Projects { names: Vec::new() }.changes_document());
    assert!(!Reply::Entries { entries: Vec::new() }.changes_document());
    assert!(!Reply::Report { entries: Vec::new() }.changes_document());
    assert!(Reply::ProjectCreated { name: String::new() }.changes_document());
    assert!(Reply::ProjectDeleted { name: String::new() }.changes_document());
    assert!(Reply::Started { project: String::new(), tag: None, start: clock(0, 0) }.changes_document());
    assert!(Reply::Stopped.changes_document());
    assert!(Reply::Updated.changes_document());
    assert!(Reply::Deleted.changes_document());
}

#[test]
fn each_refusal_has_its_sentence() {
    assert_eq!(LogError::AlreadyExists.message(), "Project already exists");
    assert_eq!(LogError::NotFound.message(), "No project with that name");
    assert_eq!(LogError::ProjectNotFound.message(), "Project does not exist");
    assert_eq!(LogError::AlreadyRunning.message(), "Project already started");
    assert_eq!(LogError::NoEntryRunning.message(), "No project started");
    assert_eq!(LogError::EntryNotFound.message(), "No entry with that id");
    assert_eq!(LogError::ParseError.message(), "Timestamps are written as YYYY-MM-DD HH:MM");
}
