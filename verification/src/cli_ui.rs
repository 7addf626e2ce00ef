//! The decisions of the desktop front end of the command-line tool: reading
//! its version, finding its running processes, judging a working directory
//! and a locked database.
use vstd::prelude::*;
use vstd::string::StringExecFns;
use crate::split::{
    views, split_on, split_on_char, split_ws, split_whitespace_chars, join, join_chars, decimal,
    decimal_chars, parse_u32, parse_u32_chars,
};
use crate::text::{has_sub, to_chars, from_chars, extend_str, extend_chars, contains};
use crate::container::{strip_cr, strip_cr_exec};
use crate::sql_diff::types::opt_view;

verus! {

broadcast use vstd::string::group_string_axioms;

/// What a command printed and how it ended.
#[derive(Debug, Clone)]
pub struct CommandResult {
    pub success: bool,
    pub exit_code: i32,
    pub stdout: String,
    pub stderr: String,
}

/// The tool's version, and whether it could be run.
#[derive(Debug, Clone)]
pub struct CliVersion {
    pub version: String,
    pub available: bool,
}

/// A running process of the tool.
#[derive(Debug, Clone)]
pub struct ProcessInfo {
    pub pid: u32,
    pub command: String,
    pub running: bool,
}

/// The processes found and stopped.
#[derive(Debug, Clone)]
pub struct ProcessCheckResult {
    pub processes_found: Vec<ProcessInfo>,
    pub processes_killed: Vec<u32>,
    pub success: bool,
    pub message: String,
}

/// What was found of a candidate working directory.
#[derive(Debug, Clone)]
pub struct DirectoryValidationResult {
    pub valid: bool,
    pub error: Option<String>,
    pub exists: bool,
    pub readable: bool,
    pub writable: bool,
    pub is_empty: bool,
}

/// The saved choice of working directory.
#[derive(Debug, Clone)]
pub struct WorkingDirectoryConfig {
    pub path: String,
    pub last_updated: String,
    pub user_selected: bool,
}

// ---------------------------------------------------------------------------
// The tool's version.

/// The index of the first line at or after `i` that mentions `duck-cli`,
/// or `-1`.
pub open spec fn first_tool_line(lines: Seq<Seq<char>>, i: int) -> int
    decreases lines.len() - i,
{
    if i < 0 || i >= lines.len() {
        -1
    } else if has_sub(strip_cr(lines[i]), "duck-cli"@) {
        i
    } else {
        first_tool_line(lines, i + 1)
    }
}

/// The version that `--version` printed: the last word of the first line
/// that mentions `duck-cli`, or `unknown`.
pub open spec fn version_in(stdout: Seq<char>) -> Seq<char> {
    let lines = split_on(stdout, '\n');
    let k = first_tool_line(lines, 0);
    if k >= 0 && split_ws(strip_cr(lines[k])).len() > 0 {
        split_ws(strip_cr(lines[k])).last()
    } else {
        "unknown"@
    }
}

/// The version answer after running `--version`: the version read from a
/// successful run, `error` after a failed one, `unavailable` when the tool
/// could not be run.
pub fn cli_version_from(run: &Result<CommandResult, String>) -> (r: CliVersion)
    ensures
        match run {
            Ok(c) => if c.success {
                r.version@ == version_in(c.stdout@) && r.available
            } else {
                r.version@ == "error"@ && !r.available
            },
            Err(_) => r.version@ == "unavailable"@ && !r.available,
        },
{
    match run {
        Ok(c) => {
            if c.success {
                CliVersion { version: version_from_output(c.stdout.as_str()), available: true }
            } else {
                CliVersion { version: String::from_str("error"), available: false }
            }
        },
        Err(_) => CliVersion { version: String::from_str("unavailable"), available: false },
    }
}

fn version_from_output(stdout: &str) -> (r: String)
    ensures
        r@ == version_in(stdout@),
{
    let lines = split_on_char(&to_chars(stdout), '\n');
    let ghost lv = views(lines@);
    let marker = to_chars("duck-cli");
    let mut i: usize = 0;
    while i < lines.len()
        invariant
            i <= lines@.len(),
            lv == views(lines@),
            lv == split_on(stdout@, '\n'),
            marker@ == "duck-cli"@,
            first_tool_line(lv, i as int) == first_tool_line(lv, 0),
        decreases lines@.len() - i,
    {
        let line = strip_cr_exec(&lines[i]);
        assert(line@ == strip_cr(lv[i as int]));
        if contains(&line, &marker) {
            let words = split_whitespace_chars(&line);
            if words.len() > 0 {
                let n = words.len();
                assert(views(words@).last() == words@[n - 1]@);
                return from_chars(&words[n - 1]);
            }
            return String::from_str("unknown");
        }
        i = i + 1;
    }
    String::from_str("unknown")
}

// ---------------------------------------------------------------------------
// Processes listed by `ps aux`.

/// The process that a line of `ps aux` describes, when it is one of the tool
/// (and not the search for it): its id is the second column, its command
/// the columns from the eleventh on.
pub open spec fn ps_process(line: Seq<char>) -> Option<(u32, Seq<char>)> {
    let parts = split_ws(line);
    if has_sub(line, "duck-cli"@) && !has_sub(line, "grep"@) && parts.len() >= 11 {
        match parse_u32(parts[1]) {
            Some(pid) => Some((pid, join(parts.skip(10), " "@))),
            None => None,
        }
    } else {
        None
    }
}

pub fn ps_line_process(line: &str) -> (r: Option<ProcessInfo>)
    ensures
        match ps_process(line@) {
            Some((pid, cmd)) => r matches Some(p) && p.pid == pid && p.command@ == cmd && p.running,
            None => r is None,
        },
{
    let l = to_chars(line);
    if !contains(&l, &to_chars("duck-cli")) || contains(&l, &to_chars("grep")) {
        return None;
    }
    let parts = split_whitespace_chars(&l);
    if parts.len() < 11 {
        return None;
    }
    match parse_u32_chars(&parts[1]) {
        None => None,
        Some(pid) => {
            let mut rest: Vec<Vec<char>> = Vec::new();
            let mut k: usize = 10;
            proof {
                crate::split::lemma_views_empty();
            }
            while k < parts.len()
                invariant
                    10 <= k <= parts@.len(),
                    views(rest@) == views(parts@).subrange(10, k as int),
                decreases parts@.len() - k,
            {
                let mut c: Vec<char> = Vec::new();
                extend_chars(&mut c, &parts[k]);
                proof {
                    crate::split::lemma_views_push(rest@, c);
                    assert(views(parts@).subrange(10, k + 1) =~= views(parts@).subrange(10, k as int).push(
                        parts@[k as int]@,
                    ));
                }
                rest.push(c);
                k = k + 1;
            }
            assert(views(parts@).subrange(10, parts@.len() as int) =~= views(parts@).skip(10));
            let cmd = join_chars(&rest, &to_chars(" "));
            Some(ProcessInfo { pid, command: from_chars(&cmd), running: true })
        },
    }
}

/// The processes of the tool that the lines of `ps aux` output describe,
/// in the order of the lines (each line without its carriage return).
pub open spec fn ps_processes(lines: Seq<Seq<char>>) -> Seq<(u32, Seq<char>)>
    decreases lines.len(),
{
    if lines.len() == 0 {
        Seq::empty()
    } else {
        let prev = ps_processes(lines.drop_last());
        match ps_process(strip_cr(lines.last())) {
            Some(p) => prev.push(p),
            None => prev,
        }
    }
}

pub open spec fn process_views(v: Seq<ProcessInfo>) -> Seq<(u32, Seq<char>)> {
    v.map_values(|p: ProcessInfo| (p.pid, p.command@))
}

/// The running processes of the tool listed in the output of `ps aux`:
/// one for each line that names `duck-cli`, not `grep`, and has at least
/// eleven columns whose second is a process id, in the order of the lines.
pub fn running_duck_processes(ps_output: &str) -> (r: Vec<ProcessInfo>)
    ensures
        process_views(r@) == ps_processes(split_on(ps_output@, '\n')),
        forall|i: int| 0 <= i < r@.len() ==> (#[trigger] r@[i]).running,
{
    let lines = split_on_char(&to_chars(ps_output), '\n');
    let ghost lv = views(lines@);
    let mut r: Vec<ProcessInfo> = Vec::new();
    let mut i: usize = 0;
    while i < lines.len()
        invariant
            i <= lines@.len(),
            lv == views(lines@),
            lv == split_on(ps_output@, '\n'),
            process_views(r@) == ps_processes(lv.take(i as int)),
            forall|j: int| 0 <= j < r@.len() ==> (#[trigger] r@[j]).running,
        decreases lines@.len() - i,
    {
        proof {
            assert(lv.take(i + 1).drop_last() =~= lv.take(i as int));
            assert(lv.take(i + 1).last() == lines@[i as int]@);
        }
        let line = from_chars(&strip_cr_exec(&lines[i]));
        match ps_line_process(line.as_str()) {
            Some(p) => {
                proof {
                    assert(process_views(r@.push(p)) =~= process_views(r@).push((p.pid, p.command@)));
                }
                r.push(p);
            },
            None => {},
        }
        i = i + 1;
    }
    assert(lv.take(lv.len() as int) =~= lv);
    r
}

/// What follows asking a process to stop (`kill -TERM`).
#[derive(Debug, Clone, Copy, PartialEq, Eq, Structural)]
pub struct KillFollowUp {
    /// The process counts as stopped.
    pub counted: bool,
    /// It still runs and is to be killed by force (`kill -KILL`).
    pub force_kill: bool,
}

/// The follow-up of a stop request: a request that could be sent counts the
/// process as stopped, and where the check made after it (`kill -0`) finds
/// the process still running, it is killed by force; a request that could
/// not be sent is neither counted nor checked.
pub fn kill_follow_up(term_sent: bool, still_running: bool) -> (r: KillFollowUp)
    ensures
        r.counted == term_sent,
        r.force_kill == (term_sent && still_running),
{
    KillFollowUp { counted: term_sent, force_kill: term_sent && still_running }
}

/// The summary of a search for processes of the tool.
pub open spec fn process_summary(found: nat, killed: nat) -> Seq<char> {
    if found == 0 {
        "没有发现运行中的 duck-cli 进程"@
    } else {
        "发现 "@ + decimal(found) + " 个 duck-cli 进程，已终止 "@ + decimal(killed) + " 个"@
    }
}

/// The result of a search that found `processes_found` and stopped the
/// processes `processes_killed`.
pub fn process_check_result(processes_found: Vec<ProcessInfo>, processes_killed: Vec<u32>) -> (r:
    ProcessCheckResult)
    ensures
        r.processes_found@ == processes_found@,
        r.processes_killed@ == processes_killed@,
        r.success == (processes_found@.len() > 0),
        r.message@ == process_summary(processes_found@.len(), processes_killed@.len()),
{
    let found = processes_found.len();
    let killed = processes_killed.len();
    let message = if found == 0 {
        String::from_str("没有发现运行中的 duck-cli 进程")
    } else {
        let mut v = to_chars("发现 ");
        extend_chars(&mut v, &decimal_chars(found as u64));
        extend_str(&mut v, " 个 duck-cli 进程，已终止 ");
        extend_chars(&mut v, &decimal_chars(killed as u64));
        extend_str(&mut v, " 个");
        from_chars(&v)
    };
    ProcessCheckResult { processes_found, processes_killed, success: found > 0, message }
}

// ---------------------------------------------------------------------------
// Working directories and the database lock.

/// The judgement of a directory from what was found of it: it must exist, be
/// a directory, be readable and be writable.
pub fn directory_validation(
    exists: bool,
    is_dir: bool,
    readable: bool,
    writable: bool,
    is_empty: bool,
) -> (r: DirectoryValidationResult)
    ensures
        r.valid == (exists && is_dir && readable && writable),
        r.exists == exists,
        r.readable == (exists && is_dir && readable),
        r.writable == (exists && is_dir && writable),
        r.is_empty == (exists && is_dir && readable && is_empty),
        opt_view(r.error) == (if !exists {
            Some("目录不存在"@)
        } else if !is_dir {
            Some("选择的路径不是目录"@)
        } else if !readable {
            Some("目录不可读"@)
        } else if !writable {
            Some("目录不可写"@)
        } else {
            None
        }),
{
    if !exists {
        return DirectoryValidationResult {
            valid: false,
            error: Some(String::from_str("目录不存在")),
            exists: false,
            readable: false,
            writable: false,
            is_empty: false,
        };
    }
    if !is_dir {
        return DirectoryValidationResult {
            valid: false,
            error: Some(String::from_str("选择的路径不是目录")),
            exists: true,
            readable: false,
            writable: false,
            is_empty: false,
        };
    }
    let valid = readable && writable;
    let error = if !readable {
        Some(String::from_str("目录不可读"))
    } else if !writable {
        Some(String::from_str("目录不可写"))
    } else {
        None
    };
    DirectoryValidationResult {
        valid,
        error,
        exists,
        readable,
        writable,
        is_empty: readable && is_empty,
    }
}

/// Whether the database file is locked, from the error of opening it for
/// writing (none where it opened or does not exist): a busy, locked or used
/// file is locked; another error is reported.
pub fn database_lock_state(open_error: Option<&str>) -> (r: Result<bool, String>)
    ensures
        match open_error {
            None => r == Ok::<bool, String>(false),
            Some(e) => if has_sub(e@, "Resource busy"@) || has_sub(e@, "locked"@) || has_sub(
                e@,
                "being used"@,
            ) {
                r == Ok::<bool, String>(true)
            } else {
                r matches Err(m) && m@ == "检查数据库锁定状态失败: "@ + e@
            },
        },
{
    match open_error {
        None => Ok(false),
        Some(e) => {
            let c = to_chars(e);
            if contains(&c, &to_chars("Resource busy")) || contains(&c, &to_chars("locked"))
                || contains(&c, &to_chars("being used")) {
                Ok(true)
            } else {
                let mut v = to_chars("检查数据库锁定状态失败: ");
                extend_str(&mut v, e);
                Err(from_chars(&v))
            }
        },
    }
}

} // verus!
