//! The kinds and states of backups and scheduled tasks, and the texts under
//! which the database stores them.
use vstd::prelude::*;
use crate::text::str_eq;

verus! {

/// Why a backup was made.
#[derive(Debug, Clone, Copy, PartialEq, Eq, Structural)]
pub enum BackupType {
    Manual,
    PreUpgrade,
}

/// How a backup ended.
#[derive(Debug, Clone, Copy, PartialEq, Eq, Structural)]
pub enum BackupStatus {
    Completed,
    Failed,
}

/// The kind of a scheduled task.
#[derive(Debug, Clone, Copy, PartialEq, Eq, Structural)]
pub enum TaskType {
    ServiceUpgrade,
}

/// The state of a scheduled task.
#[derive(Debug, Clone, Copy, PartialEq, Eq, Structural)]
pub enum TaskStatus {
    Pending,
    InProgress,
    Completed,
    Failed,
    Cancelled,
}

pub open spec fn backup_type_text(t: BackupType) -> Seq<char> {
    match t {
        BackupType::Manual => "manual"@,
        BackupType::PreUpgrade => "pre-upgrade"@,
    }
}

/// The type stored as `s`; an unknown text reads as a manual backup.
pub open spec fn backup_type_of(s: Seq<char>) -> BackupType {
    if s == "pre-upgrade"@ {
        BackupType::PreUpgrade
    } else {
        BackupType::Manual
    }
}

pub open spec fn backup_status_text(t: BackupStatus) -> Seq<char> {
    match t {
        BackupStatus::Completed => "completed"@,
        BackupStatus::Failed => "failed"@,
    }
}

/// The status stored as `s`; an unknown text reads as a failure.
pub open spec fn backup_status_of(s: Seq<char>) -> BackupStatus {
    if s == "completed"@ {
        BackupStatus::Completed
    } else {
        BackupStatus::Failed
    }
}

pub open spec fn task_status_text(t: TaskStatus) -> Seq<char> {
    match t {
        TaskStatus::Pending => "PENDING"@,
        TaskStatus::InProgress => "IN_PROGRESS"@,
        TaskStatus::Completed => "COMPLETED"@,
        TaskStatus::Failed => "FAILED"@,
        TaskStatus::Cancelled => "CANCELLED"@,
    }
}

/// The status stored as `s`; an unknown text reads as pending.
pub open spec fn task_status_of(s: Seq<char>) -> TaskStatus {
    if s == "IN_PROGRESS"@ {
        TaskStatus::InProgress
    } else if s == "COMPLETED"@ {
        TaskStatus::Completed
    } else if s == "FAILED"@ {
        TaskStatus::Failed
    } else if s == "CANCELLED"@ {
        TaskStatus::Cancelled
    } else {
        TaskStatus::Pending
    }
}

impl BackupType {
    pub fn as_db_str(&self) -> (r: &'static str)
        ensures
            r@ == backup_type_text(*self),
    {
        match self {
            BackupType::Manual => "manual",
            BackupType::PreUpgrade => "pre-upgrade",
        }
    }

    pub fn from_db_str(s: &str) -> (r: BackupType)
        ensures
            r == backup_type_of(s@),
    {
        if str_eq(s, "pre-upgrade") {
            BackupType::PreUpgrade
        } else {
            BackupType::Manual
        }
    }
}

impl BackupStatus {
    pub fn as_db_str(&self) -> (r: &'static str)
        ensures
            r@ == backup_status_text(*self),
    {
        match self {
            BackupStatus::Completed => "completed",
            BackupStatus::Failed => "failed",
        }
    }

    pub fn from_db_str(s: &str) -> (r: BackupStatus)
        ensures
            r == backup_status_of(s@),
    {
        if str_eq(s, "completed") {
            BackupStatus::Completed
        } else {
            BackupStatus::Failed
        }
    }
}

impl TaskStatus {
    pub fn as_db_str(&self) -> (r: &'static str)
        ensures
            r@ == task_status_text(*self),
    {
        match self {
            TaskStatus::Pending => "PENDING",
            TaskStatus::InProgress => "IN_PROGRESS",
            TaskStatus::Completed => "COMPLETED",
            TaskStatus::Failed => "FAILED",
            TaskStatus::Cancelled => "CANCELLED",
        }
    }

    pub fn from_db_str(s: &str) -> (r: TaskStatus)
        ensures
            r == task_status_of(s@),
    {
        if str_eq(s, "IN_PROGRESS") {
            TaskStatus::InProgress
        } else if str_eq(s, "COMPLETED") {
            TaskStatus::Completed
        } else if str_eq(s, "FAILED") {
            TaskStatus::Failed
        } else if str_eq(s, "CANCELLED") {
            TaskStatus::Cancelled
        } else {
            TaskStatus::Pending
        }
    }
}

/// Law: what is stored is read back as the same kind or state.
pub proof fn law_stored_texts_round_trip(b: BackupType, s: BackupStatus, t: TaskStatus)
    ensures
        backup_type_of(backup_type_text(b)) == b,
        backup_status_of(backup_status_text(s)) == s,
        task_status_of(task_status_text(t)) == t,
{
    reveal_strlit("manual");
    reveal_strlit("pre-upgrade");
    reveal_strlit("completed");
    reveal_strlit("failed");
    reveal_strlit("PENDING");
    reveal_strlit("IN_PROGRESS");
    reveal_strlit("COMPLETED");
    reveal_strlit("FAILED");
    reveal_strlit("CANCELLED");
    assert("manual"@.len() != "pre-upgrade"@.len());
    assert("failed"@.len() != "completed"@.len());
    assert("PENDING"@[0] != "IN_PROGRESS"@[0]);
    assert("PENDING"@[0] != "COMPLETED"@[0]);
    assert("PENDING"@[0] != "FAILED"@[0]);
    assert("PENDING"@[0] != "CANCELLED"@[0]);
    assert("COMPLETED"@[0] != "IN_PROGRESS"@[0]);
    assert("FAILED"@[0] != "IN_PROGRESS"@[0]);
    assert("CANCELLED"@[0] != "IN_PROGRESS"@[0]);
    assert("FAILED"@[0] != "COMPLETED"@[0]);
    assert("CANCELLED"@[1] != "COMPLETED"@[1]);
    assert("CANCELLED"@[0] != "FAILED"@[0]);
}

} // verus!
