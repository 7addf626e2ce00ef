use client_core::cli_ui::{cli_version_from, database_lock_state, directory_validation, kill_follow_up, process_check_result, ps_line_process, running_duck_processes, CommandResult};
use client_core::client_ui::{app_state_info, default_work_directory, in_docker_group, storage_figures};

fn run(success: bool, stdout: &str) -> Result<CommandResult, String> {
    Ok(CommandResult { success, exit_code: if success { 0 } else { 1 }, stdout: stdout.to_string(), stderr: String::new() })
}

#[test]
fn cli_version_is_read_from_its_line() {
    let v = cli_version_from(&run(true, "banner\r\nduck-cli 0.3.1\r\n"));
    assert_eq!(v.version, "0.3.1");
    assert!(v.available);
    assert_eq!(cli_version_from(&run(true, "something else\n")).version, "unknown");
    let e = cli_version_from(&run(false, "duck-cli 1"));
    assert_eq!(e.version, "error");
    assert!(!e.available);
    let u = cli_version_from(&Err("no".to_string()));
    assert_eq!(u.version, "unavailable");
    assert!(!u.available);
}

#[test]
fn ps_lines_of_the_tool() {
    let line = "user  4242  0.0  0.1  1234  5678 ?  S  10:00  0:00 /usr/bin/duck-cli serve --port 80";
    let p = ps_line_process(line).unwrap();
    assert_eq!(p.pid, 4242);
    assert_eq!(p.command, "/usr/bin/duck-cli serve --port 80");
    assert!(p.running);
    assert!(ps_line_process("user 1 0 0 0 0 ? S 10:00 0:00 grep duck-cli").is_none());
    assert!(ps_line_process("user x 0 0 0 0 ? S 10:00 0:00 duck-cli").is_none());
    assert!(ps_line_process("user 99999999999 0 0 0 0 ? S 10:00 0:00 duck-cli").is_none());
    assert!(ps_line_process("short duck-cli line").is_none());
    assert_eq!(ps_line_process("u +12 0 0 0 0 ? S 1 0 duck-cli").unwrap().pid, 12);
}

#[test]
fn process_summaries() {
    let none = process_check_result(vec![], vec![]);
    assert!(!none.success);
    assert_eq!(none.message, "没有发现运行中的 duck-cli 进程");
    let p = ps_line_process("u 7 0 0 0 0 ? S 1 0 duck-cli").unwrap();
    let some = process_check_result(vec![p], vec![7]);
    assert!(some.success);
    assert_eq!(some.message, "发现 1 个 duck-cli 进程，已终止 1 个");
}

#[test]
fn directory_answers() {
    let missing = directory_validation(false, false, false, false, false);
    assert!(!missing.valid);
    assert_eq!(missing.error.as_deref(), Some("目录不存在"));
    let file = directory_validation(true, false, true, true, false);
    assert_eq!(file.error.as_deref(), Some("选择的路径不是目录"));
    let ro = directory_validation(true, true, true, false, true);
    assert!(!ro.valid && ro.readable && !ro.writable && ro.is_empty);
    assert_eq!(ro.error.as_deref(), Some("目录不可写"));
    let unreadable = directory_validation(true, true, false, true, true);
    assert_eq!(unreadable.error.as_deref(), Some("目录不可读"));
    assert!(!unreadable.is_empty);
    let ok = directory_validation(true, true, true, true, false);
    assert!(ok.valid && ok.error.is_none());
}

#[test]
fn database_lock_answers() {
    assert_eq!(database_lock_state(None), Ok(false));
    assert_eq!(database_lock_state(Some("Resource busy (os error 16)")), Ok(true));
    assert_eq!(database_lock_state(Some("file is locked")), Ok(true));
    assert_eq!(database_lock_state(Some("Permission denied")), Err("检查数据库锁定状态失败: Permission denied".to_string()));
}

#[test]
fn client_screens() {
    let s = app_state_info("/w", true, true);
    assert!(s.initialized);
    assert_eq!(s.state, "READY");
    assert_eq!(s.working_directory.as_deref(), Some("/w"));
    assert_eq!(app_state_info("/w", true, false).state, "UNINITIALIZED");
    assert_eq!(default_work_directory(Some("/home/u")), "/home/u/Documents/DuckClient");
    assert_eq!(default_work_directory(None), "./DuckClient");
    assert!(in_docker_group("user adm docker sudo\n"));
    assert!(!in_docker_group("user adm sudo\n"));
    let gib = 1024u64 * 1024 * 1024;
    assert_eq!(storage_figures(100 * gib, 60 * gib), (40 * gib, true));
    assert_eq!(storage_figures(100 * gib, 59 * gib), (41 * gib, false));
}

#[test]
fn running_processes_are_read_from_the_whole_listing() {
    let out = "USER PID %CPU %MEM VSZ RSS TTY STAT START TIME COMMAND\r\n\
root 42 0.0 0.1 100 200 ? S 10:00 0:00 /usr/bin/duck-cli serve --port 8\r\n\
root 43 0.0 0.1 100 200 ? S 10:00 0:00 grep duck-cli\n\
root x 0.0 0.1 100 200 ? S 10:00 0:00 duck-cli bad\n\
bob 7 0.0 0.1 100 200 ? S 10:01 0:00 duck-cli\n\
bob 8 0.0 0.1 100 200 ? S 10:01 0:00 vim notes\n";
    let found = running_duck_processes(out);
    let seen: Vec<(u32, String)> = found.iter().map(|p| (p.pid, p.command.clone())).collect();
    assert_eq!(
        seen,
        vec![(42, "/usr/bin/duck-cli serve --port 8".to_string()), (7, "duck-cli".to_string())]
    );
    assert!(found.iter().all(|p| p.running));
    assert!(running_duck_processes("").is_empty());
}

#[test]
fn stop_requests_are_followed_up() {
    let sent_and_gone = kill_follow_up(true, false);
    assert!(sent_and_gone.counted && !sent_and_gone.force_kill);
    let sent_but_alive = kill_follow_up(true, true);
    assert!(sent_but_alive.counted && sent_but_alive.force_kill);
    let not_sent = kill_follow_up(false, true);
    assert!(!not_sent.counted && !not_sent.force_kill);
}
