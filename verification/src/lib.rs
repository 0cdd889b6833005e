//! A personal time-tracking ledger: named projects, timed work sessions
//! recorded against them, and period-based queries over those sessions.
//!
//! The document (`LogFile`) is the whole state. Every operation is a function
//! on a document held in memory; reading and writing the backing store is the
//! caller's business, and so is reading the clock: an operation that needs
//! the current time takes it as an argument.
//!
//! - `model` says what each operation means, on sequences.
//! - `data` holds the document and the operations, each proved against the
//!   model.
//! - `time` holds timestamps and periods; the calendar itself is chrono's.
//! - `cli` holds the commands and carries one out on a document.
//! - `laws` holds what is proved of the operations taken together.
//! - `error` holds the refusals.

pub mod cli;
pub mod data;
pub mod error;
pub mod laws;
pub mod model;
pub mod time;

pub use cli::{Cli, Command, ListCommand, ProjectCommand, Reply};
pub use data::{
    check_any_project_started, check_project_exists, check_project_started, create_project,
    delete_entry, delete_project, entries_in_period, entry_matches, fetch_entries, find_entry,
    list_entries, list_projects, set_entry_times, start_entry, stop_entry, update_entry, LogFile,
    ProjectDef, TimeEntry,
};
pub use error::LogError;
pub use time::{Period, Timestamp, DATE_IN_FORMAT};
