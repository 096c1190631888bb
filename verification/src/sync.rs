//! The download tasks of the synchronization database: their states, how a
//! task is made, and how a stored row reads back.

use vstd::prelude::*;
use vstd::string::StringExecFns;
use crate::cloud::state::{fresh_uuid, now, Timestamp};
use crate::text::{opt_view, str_eq};

verus! {

/// The state of a download task.
#[derive(Clone, Copy, Debug, PartialEq, Eq, Structural)]
pub enum TaskStatus {
    Pending,
    Downloading,
    Completed,
    Failed,
    Cancelled,
}

/// The name under which a state is stored.
pub open spec fn status_name(s: TaskStatus) -> Seq<char> {
    match s {
        TaskStatus::Pending => "pending"@,
        TaskStatus::Downloading => "downloading"@,
        TaskStatus::Completed => "completed"@,
        TaskStatus::Failed => "failed"@,
        TaskStatus::Cancelled => "cancelled"@,
    }
}

/// The state stored under a name.
pub open spec fn status_named(s: Seq<char>) -> Option<TaskStatus> {
    if s == "pending"@ {
        Some(TaskStatus::Pending)
    } else if s == "downloading"@ {
        Some(TaskStatus::Downloading)
    } else if s == "completed"@ {
        Some(TaskStatus::Completed)
    } else if s == "failed"@ {
        Some(TaskStatus::Failed)
    } else if s == "cancelled"@ {
        Some(TaskStatus::Cancelled)
    } else {
        None
    }
}

impl TaskStatus {
    /// The stored name of the state.
    pub fn as_str(&self) -> (r: &'static str)
        ensures
            r@ == status_name(*self),
    {
        match self {
            TaskStatus::Pending => "pending",
            TaskStatus::Downloading => "downloading",
            TaskStatus::Completed => "completed",
            TaskStatus::Failed => "failed",
            TaskStatus::Cancelled => "cancelled",
        }
    }

    /// The state stored under `s`, if any.
    pub fn from_str(s: &str) -> (r: Option<Self>)
        ensures
            r == status_named(s@),
    {
        if str_eq(s, "pending") {
            Some(TaskStatus::Pending)
        } else if str_eq(s, "downloading") {
            Some(TaskStatus::Downloading)
        } else if str_eq(s, "completed") {
            Some(TaskStatus::Completed)
        } else if str_eq(s, "failed") {
            Some(TaskStatus::Failed)
        } else if str_eq(s, "cancelled") {
            Some(TaskStatus::Cancelled)
        } else {
            None
        }
    }

    /// The state of a stored row: the state named `s`, or `Pending` when
    /// the name is unknown.
    pub fn from_stored(s: &str) -> (r: Self)
        ensures
            r == match status_named(s@) {
                Some(x) => x,
                None => TaskStatus::Pending,
            },
    {
        match TaskStatus::from_str(s) {
            Some(x) => x,
            None => TaskStatus::Pending,
        }
    }
}

/// Reading back the stored name of a state gives the state.
pub proof fn law_status_round_trip(s: TaskStatus)
    ensures
        status_named(status_name(s)) == Some(s),
{
    reveal_strlit("pending");
    reveal_strlit("downloading");
    reveal_strlit("completed");
    reveal_strlit("failed");
    reveal_strlit("cancelled");
    assert("pending"@.len() == 7 && "downloading"@.len() == 11 && "completed"@.len() == 9);
    assert("failed"@.len() == 6 && "cancelled"@.len() == 9);
    assert("completed"@[1] != "cancelled"@[1]);
}

/// A name that reads as a state is that state's stored name.
pub proof fn law_status_names_exact(n: Seq<char>)
    ensures
        status_named(n) matches Some(s) ==> status_name(s) == n,
{
}

/// The query that lists the stored tasks, latest first, of state `status`
/// or of every state.
pub open spec fn tasks_query_text(status: Option<TaskStatus>) -> Seq<char> {
    match status {
        Some(s) => "SELECT * FROM tasks WHERE status = '"@ + status_name(s) + "' ORDER BY created_at DESC"@,
        None => "SELECT * FROM tasks ORDER BY created_at DESC"@,
    }
}

/// The query that lists the stored tasks of state `status`, or all of them.
pub fn tasks_query(status: Option<TaskStatus>) -> (r: String)
    ensures
        r@ == tasks_query_text(status),
{
    match status {
        Some(s) => {
            let mut q = String::from_str("SELECT * FROM tasks WHERE status = '");
            q.append(s.as_str());
            q.append("' ORDER BY created_at DESC");
            q
        },
        None => String::from_str("SELECT * FROM tasks ORDER BY created_at DESC"),
    }
}

/// What is known of a downloaded file. The duration, in seconds, is held
/// as the bit pattern of its `f64` value.
#[derive(Debug)]
pub struct TaskMetadata {
    pub filename: Option<String>,
    pub size: Option<u64>,
    pub format: Option<String>,
    pub title: Option<String>,
    pub duration_bits: Option<u64>,
    pub thumbnail: Option<String>,
}

/// A download task as the database keeps it.
#[derive(Debug)]
pub struct Task {
    pub id: String,
    pub url: String,
    pub extension_name: Option<String>,
    pub status: TaskStatus,
    pub file_path: Option<String>,
    pub metadata: Option<TaskMetadata>,
    pub created_at: Timestamp,
    pub updated_at: Timestamp,
    /// The device that made the task.
    pub device_id: String,
    /// The version of the record, raised by each change.
    pub version: i64,
}

/// A row of the task table, its columns as stored: timestamps as RFC 3339
/// text, the state by name, the metadata already read from its JSON.
#[derive(Debug)]
pub struct StoredRow {
    pub id: String,
    pub url: String,
    pub extension_name: Option<String>,
    pub status: String,
    pub file_path: Option<String>,
    pub metadata: Option<TaskMetadata>,
    pub created_at: String,
    pub updated_at: String,
    pub device_id: String,
    pub version: i64,
}

/// The instant that RFC 3339 text `s` denotes, as chrono parses it
/// (`DateTime::parse_from_rfc3339`, taken to UTC); `None` when it does not
/// parse.
pub uninterp spec fn rfc3339_instant(s: Seq<char>) -> Option<Timestamp>;

/// `chrono::DateTime::parse_from_rfc3339`, taken to UTC seconds and
/// nanoseconds. Claims only that the result is a function of the text,
/// named `rfc3339_instant`.
#[verifier::external_body]
fn parse_rfc3339(s: &str) -> (r: Option<Timestamp>)
    ensures
        r == rfc3339_instant(s@),
{
    match chrono::DateTime::parse_from_rfc3339(s) {
        Ok(t) => Some(Timestamp { secs: t.timestamp(), nanos: t.timestamp_subsec_nanos() }),
        Err(_) => None,
    }
}

impl Task {
    /// A new pending task for `url`, to run with `extension_name`, made on
    /// device `device_id`: a fresh random id, version 1, no file or
    /// metadata yet, created and updated at the same instant.
    pub fn new(url: &str, extension_name: Option<String>, device_id: String) -> (r: Self)
        ensures
            r.url@ == url@,
            opt_view(r.extension_name) == opt_view(extension_name),
            r.status == TaskStatus::Pending,
            r.file_path is None,
            r.metadata is None,
            r.created_at == r.updated_at,
            r.device_id@ == device_id@,
            r.version == 1,
    {
        let at = now();
        Task {
            id: fresh_uuid(),
            url: String::from_str(url),
            extension_name,
            status: TaskStatus::Pending,
            file_path: None,
            metadata: None,
            created_at: at,
            updated_at: at,
            device_id,
            version: 1,
        }
    }

    /// The line that lists the task: its id, its state in brackets, and its
    /// URL, indented by two spaces.
    pub fn summary_line(&self) -> (r: String)
        ensures
            r@ == "  "@ + self.id@ + " ["@ + status_name(self.status) + "] "@ + self.url@,
    {
        let mut s = String::from_str("  ");
        s.append(self.id.as_str());
        s.append(" [");
        s.append(self.status.as_str());
        s.append("] ");
        s.append(self.url.as_str());
        s
    }

    /// The instant of a stored timestamp, or the current time when the
    /// text does not parse.
    fn stored_instant(s: &str) -> (r: Timestamp)
        ensures
            rfc3339_instant(s@) matches Some(t) ==> r == t,
    {
        match parse_rfc3339(s) {
            Some(t) => t,
            None => now(),
        }
    }

    /// The task a stored row holds: the state read back by name (pending
    /// when unknown), the timestamps parsed (the current time where one
    /// does not parse), the other columns as they are.
    pub fn from_row(row: StoredRow) -> (r: Self)
        ensures
            r.id@ == row.id@,
            r.url@ == row.url@,
            opt_view(r.extension_name) == opt_view(row.extension_name),
            r.status == (match status_named(row.status@) {
                Some(x) => x,
                None => TaskStatus::Pending,
            }),
            opt_view(r.file_path) == opt_view(row.file_path),
            r.metadata == row.metadata,
            rfc3339_instant(row.created_at@) matches Some(t) ==> r.created_at == t,
            rfc3339_instant(row.updated_at@) matches Some(t) ==> r.updated_at == t,
            r.device_id@ == row.device_id@,
            r.version == row.version,
    {
        let status = TaskStatus::from_stored(row.status.as_str());
        let created_at = Task::stored_instant(row.created_at.as_str());
        let updated_at = Task::stored_instant(row.updated_at.as_str());
        Task {
            id: row.id,
            url: row.url,
            extension_name: row.extension_name,
            status,
            file_path: row.file_path,
            metadata: row.metadata,
            created_at,
            updated_at,
            device_id: row.device_id,
            version: row.version,
        }
    }
}

} // verus!
