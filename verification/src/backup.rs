//! Backups of the deployment: their options, the names of their archives,
//! and the checks made before a backup is written or restored.
use vstd::prelude::*;
use vstd::string::StringExecFns;
use crate::database::{BackupType, BackupStatus, backup_type_text};
use crate::error::DuckError;
use crate::text::{to_chars, from_chars, extend_str, str_eq};

verus! {

broadcast use vstd::string::group_string_axioms;

/// What to back up.
#[derive(Debug, Clone)]
pub struct BackupOptions {
    pub backup_type: BackupType,
    pub service_version: String,
    pub source_dirs: Vec<String>,
    /// The gzip level, 0 to 9.
    pub compression_level: u32,
}

/// Where and how to restore.
#[derive(Debug, Clone)]
pub struct RestoreOptions {
    pub target_dir: String,
    pub force_overwrite: bool,
}

/// The archive name of a backup of `version` of type `t`, made at
/// `timestamp` (written `%Y-%m-%d_%H-%M-%S`).
pub open spec fn backup_file_name(t: BackupType, version: Seq<char>, timestamp: Seq<char>) -> Seq<char> {
    "backup_"@ + backup_type_text(t) + "_v"@ + version + "_"@ + timestamp + ".tar.gz"@
}

/// The first source directory that does not exist, by `exists[i]` for
/// directory `i`.
pub open spec fn first_missing(exists: Seq<bool>, i: int) -> int
    decreases exists.len() - i,
{
    if i < 0 || i >= exists.len() {
        -1
    } else if !exists[i] {
        i
    } else {
        first_missing(exists, i + 1)
    }
}

/// What to do with the target directory of a restore.
#[derive(Debug, Clone, Copy, PartialEq, Eq, Structural)]
pub enum RestoreTarget {
    /// It does not exist: restore into it.
    Use,
    /// It exists and may be overwritten: empty it first.
    Clear,
}

impl BackupOptions {
    /// The archive name of this backup made at `timestamp`.
    pub fn backup_file_name(&self, timestamp: &str) -> (r: String)
        ensures
            r@ == backup_file_name(self.backup_type, self.service_version@, timestamp@),
    {
        let mut v = to_chars("backup_");
        extend_str(&mut v, self.backup_type.as_db_str());
        extend_str(&mut v, "_v");
        extend_str(&mut v, self.service_version.as_str());
        extend_str(&mut v, "_");
        extend_str(&mut v, timestamp);
        extend_str(&mut v, ".tar.gz");
        from_chars(&v)
    }

    /// Whether every source directory exists, by `exists[i]` for directory
    /// `i`; the error names the first that does not.
    pub fn check_sources(&self, exists: &Vec<bool>) -> (r: Result<(), DuckError>)
        requires
            exists@.len() == self.source_dirs@.len(),
        ensures
            first_missing(exists@, 0) < 0 ==> r is Ok,
            first_missing(exists@, 0) >= 0 ==> (r matches Err(DuckError::Backup(m)) && m@
                == "源目录不存在: "@ + self.source_dirs@[first_missing(exists@, 0)]@),
    {
        let mut i: usize = 0;
        while i < exists.len()
            invariant
                i <= exists@.len(),
                exists@.len() == self.source_dirs@.len(),
                first_missing(exists@, i as int) == first_missing(exists@, 0),
            decreases exists@.len() - i,
        {
            if !exists[i] {
                let mut v = to_chars("源目录不存在: ");
                extend_str(&mut v, self.source_dirs[i].as_str());
                return Err(DuckError::Backup(from_chars(&v)));
            }
            i = i + 1;
        }
        Ok(())
    }
}

impl RestoreOptions {
    /// What to do with the target directory, given whether it exists: an
    /// existing one is emptied only when overwriting is allowed.
    pub fn target_action(&self, target_exists: bool) -> (r: Result<RestoreTarget, DuckError>)
        ensures
            !target_exists ==> r == Ok::<RestoreTarget, DuckError>(RestoreTarget::Use),
            target_exists && self.force_overwrite ==> r == Ok::<RestoreTarget, DuckError>(
                RestoreTarget::Clear,
            ),
            target_exists && !self.force_overwrite ==> (r matches Err(DuckError::Backup(m)) && m@
                == "目标目录已存在，请使用 force_overwrite 选项"@),
    {
        if !target_exists {
            Ok(RestoreTarget::Use)
        } else if self.force_overwrite {
            Ok(RestoreTarget::Clear)
        } else {
            Err(DuckError::Backup(String::from_str("目标目录已存在，请使用 force_overwrite 选项")))
        }
    }
}

/// The status recorded for a backup whose archive was written (`true`) or
/// not.
pub fn backup_outcome(written: bool) -> (r: BackupStatus)
    ensures
        r == (if written {
            BackupStatus::Completed
        } else {
            BackupStatus::Failed
        }),
{
    if written {
        BackupStatus::Completed
    } else {
        BackupStatus::Failed
    }
}

/// The name of a file in the archive: the source directory's name, then the
/// file's path inside it.
pub fn archive_entry_name(dir_name: &str, relative_path: &str) -> (r: String)
    ensures
        r@ == dir_name@ + "/"@ + relative_path@,
{
    let mut v = to_chars(dir_name);
    extend_str(&mut v, "/");
    extend_str(&mut v, relative_path);
    from_chars(&v)
}

/// The expected size of the archive of `total_size` bytes of files: half.
pub fn estimated_backup_size(total_size: u64) -> (r: u64)
    ensures
        r == total_size / 2,
{
    total_size / 2
}

/// Whether moving the backups to `new_dir` from `current_dir` has anything
/// to do.
pub fn storage_dir_changes(current_dir: &str, new_dir: &str) -> (r: bool)
    ensures
        r == (current_dir@ != new_dir@),
{
    !str_eq(current_dir, new_dir)
}

} // verus!
