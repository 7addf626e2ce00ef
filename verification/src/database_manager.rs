//! The retry policy of database operations and the reports about the
//! database connection.
//!
//! An operation that fails with a transient error (a write conflict, a
//! locked or busy database) is retried up to three times: reads after
//! 100 ms times the retry number, writes after 100 ms doubled with each
//! retry.
use vstd::prelude::*;
use vstd::string::StringExecFns;
use crate::text::{has_sub, to_chars, contains, trim, trim_chars, has_prefix, starts_with, from_chars};
use crate::split::{views, split_on, split_on_char};
use crate::sql_text::{sql_statements, split_sql_statements};
use crate::sql_diff::types::{str_views, lemma_str_views_push};
use crate::sql_diff::types::opt_view;

verus! {

broadcast use vstd::string::group_string_axioms;

/// The number of retries of a failed operation.
pub const MAX_RETRIES: usize = 3;

/// Whether an error message tells of a transient failure.
pub open spec fn retryable(msg: Seq<char>) -> bool {
    has_sub(msg, "write-write conflict"@) || has_sub(msg, "database is locked"@) || has_sub(
        msg,
        "database is busy"@,
    ) || has_sub(msg, "SQLITE_BUSY"@) || has_sub(msg, "SQLITE_LOCKED"@)
}

/// Whether the error `error_msg` is worth retrying.
pub fn is_retryable_error(error_msg: &str) -> (r: bool)
    ensures
        r == retryable(error_msg@),
{
    let m = to_chars(error_msg);
    contains(&m, &to_chars("write-write conflict")) || contains(&m, &to_chars("database is locked"))
        || contains(&m, &to_chars("database is busy")) || contains(&m, &to_chars("SQLITE_BUSY"))
        || contains(&m, &to_chars("SQLITE_LOCKED"))
}

/// The delay in milliseconds before the next try of a read that failed
/// with `error_msg` after `retry_count` retries, or `None` to give up.
pub fn read_retry_delay(error_msg: &str, retry_count: usize) -> (r: Option<u64>)
    ensures
        r == (if retryable(error_msg@) && retry_count < MAX_RETRIES {
            Some((100 * (retry_count + 1)) as u64)
        } else {
            None
        }),
{
    if is_retryable_error(error_msg) && retry_count < MAX_RETRIES {
        let next: u64 = (retry_count + 1) as u64;
        Some(100 * next)
    } else {
        None
    }
}

/// The wait in milliseconds before retry `retry_count + 1` of a write:
/// 100 ms times two to the power of the retry's number.
pub open spec fn write_backoff(retry_count: int) -> int {
    if retry_count == 0 {
        200
    } else if retry_count == 1 {
        400
    } else {
        800
    }
}

/// The delay in milliseconds before the next try of a write that failed
/// with `error_msg` after `retry_count` retries, or `None` to give up.
pub fn write_retry_delay(error_msg: &str, retry_count: usize) -> (r: Option<u64>)
    ensures
        r == (if retryable(error_msg@) && retry_count < MAX_RETRIES {
            Some(write_backoff(retry_count as int) as u64)
        } else {
            None
        }),
{
    if is_retryable_error(error_msg) && retry_count < MAX_RETRIES {
        let next: u32 = (retry_count + 1) as u32;
        let factor: u64 = 1u64 << next;
        assert(factor == (if retry_count == 0 {
            2u64
        } else if retry_count == 1 {
            4u64
        } else {
            8u64
        })) by (bit_vector)
            requires
                next == retry_count + 1,
                retry_count < 3,
                factor == 1u64 << next,
        ;
        Some(100 * factor)
    } else {
        None
    }
}

/// Law: the wait before each retry of a write is twice the one before.
pub proof fn law_write_backoff_doubles(n: int)
    requires
        0 <= n,
        n + 1 < MAX_RETRIES,
    ensures
        write_backoff(n + 1) == 2 * write_backoff(n),
{
}

/// The kind of database and whether it is held in memory.
#[derive(Debug, Clone)]
pub struct ConnectionStats {
    pub db_type: String,
    pub is_memory_db: bool,
}

/// The outcome of a test read and a test write.
#[derive(Debug, Clone)]
pub struct HealthStatus {
    pub read_healthy: bool,
    pub write_healthy: bool,
    pub read_error: Option<String>,
    pub write_error: Option<String>,
}

/// The report of a database opened from a file (`has_path`) or held in
/// memory (`has_memory_connection`).
pub fn connection_stats(has_path: bool, has_memory_connection: bool) -> (r: ConnectionStats)
    ensures
        r.db_type@ == (if has_path {
            "file"@
        } else {
            "memory"@
        }),
        r.is_memory_db == has_memory_connection,
{
    ConnectionStats {
        db_type: if has_path {
            String::from_str("file")
        } else {
            String::from_str("memory")
        },
        is_memory_db: has_memory_connection,
    }
}

pub open spec fn err_text(r: Result<(), String>) -> Option<Seq<char>> {
    match r {
        Ok(()) => None,
        Err(e) => Some(e@),
    }
}

/// The health report from the outcomes of the test read and write, their
/// errors carried as text.
pub fn health_status(read: Result<(), String>, write: Result<(), String>) -> (r: HealthStatus)
    ensures
        r.read_healthy == read is Ok,
        r.write_healthy == write is Ok,
        opt_view(r.read_error) == err_text(read),
        opt_view(r.write_error) == err_text(write),
{
    let read_healthy = read.is_ok();
    let write_healthy = write.is_ok();
    let read_error = match read {
        Ok(()) => None,
        Err(e) => Some(e),
    };
    let write_error = match write {
        Ok(()) => None,
        Err(e) => Some(e),
    };
    HealthStatus { read_healthy, write_healthy, read_error, write_error }
}


/// Splits a SQL script into its statements: `;` ends one unless it stands
/// in quotes or in a `{ ... }` JSON literal; each is trimmed and blank ones
/// are left out.
pub fn parse_sql_statements(sql: &str) -> (r: Vec<String>)
    ensures
        str_views(r@) == sql_statements(sql@),
{
    let parts = split_sql_statements(&to_chars(sql));
    let ghost pv = views(parts@);
    let mut r: Vec<String> = Vec::new();
    let mut i: usize = 0;
    while i < parts.len()
        invariant
            i <= parts@.len(),
            pv == views(parts@),
            str_views(r@) == pv.take(i as int),
        decreases parts@.len() - i,
    {
        let x = from_chars(&parts[i]);
        proof {
            lemma_str_views_push(r@, x);
            assert(pv.take(i + 1) =~= pv.take(i as int).push(parts@[i as int]@));
        }
        r.push(x);
        i = i + 1;
    }
    assert(pv.take(pv.len() as int) =~= pv);
    r
}

/// A line that is blank or a `--` comment once trimmed.
pub open spec fn comment_or_blank(line: Seq<char>) -> bool {
    trim(line).len() == 0 || has_prefix(trim(line), "--"@)
}

/// A statement whose every line is blank or a comment.
pub open spec fn only_comments(stmt: Seq<char>) -> bool {
    forall|i: int| 0 <= i < split_on(stmt, '\n').len() ==> #[trigger] comment_or_blank(
        split_on(stmt, '\n')[i],
    )
}

pub fn is_only_comments(stmt: &str) -> (r: bool)
    ensures
        r == only_comments(stmt@),
{
    let lines = split_on_char(&to_chars(stmt), '\n');
    let ghost lv = views(lines@);
    let dashes = to_chars("--");
    proof {
        reveal_strlit("--");
    }
    let mut i: usize = 0;
    while i < lines.len()
        invariant
            i <= lines@.len(),
            lv == views(lines@),
            lv == split_on(stmt@, '\n'),
            dashes@ == "--"@,
            forall|j: int| 0 <= j < i ==> #[trigger] comment_or_blank(lv[j]),
        decreases lines@.len() - i,
    {
        let t = trim_chars(&lines[i]);
        assert(lv[i as int] == lines@[i as int]@);
        if t.len() > 0 && !starts_with(&t, &dashes) {
            assert(!comment_or_blank(lv[i as int]));
            return false;
        }
        i = i + 1;
    }
    true
}

/// The statements of a schema script that are run: all but those made of
/// comments alone.
pub open spec fn statements_to_run(stmts: Seq<Seq<char>>) -> Seq<Seq<char>>
    decreases stmts.len(),
{
    if stmts.len() == 0 {
        Seq::empty()
    } else if only_comments(stmts.last()) {
        statements_to_run(stmts.drop_last())
    } else {
        statements_to_run(stmts.drop_last()).push(stmts.last())
    }
}

/// The statements that setting up the schema from `sql` executes, in order.
pub fn schema_statements(sql: &str) -> (r: Vec<String>)
    ensures
        str_views(r@) == statements_to_run(sql_statements(sql@)),
{
    let stmts = parse_sql_statements(sql);
    let ghost sv = str_views(stmts@);
    let mut r: Vec<String> = Vec::new();
    let mut i: usize = 0;
    while i < stmts.len()
        invariant
            i <= stmts@.len(),
            sv == str_views(stmts@),
            sv == sql_statements(sql@),
            str_views(r@) == statements_to_run(sv.take(i as int)),
        decreases stmts@.len() - i,
    {
        proof {
            assert(sv.take(i + 1).drop_last() =~= sv.take(i as int));
            assert(sv.take(i + 1).last() == stmts@[i as int]@);
        }
        if !is_only_comments(stmts[i].as_str()) {
            let x = stmts[i].clone();
            proof {
                lemma_str_views_push(r@, x);
            }
            r.push(x);
        }
        i = i + 1;
    }
    assert(sv.take(sv.len() as int) =~= sv);
    r
}

} // verus!
