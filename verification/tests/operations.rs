use client_core::authenticated_client::{registered_client_id, reregistration_failed, AuthRules};
use client_core::backup::{archive_entry_name, backup_outcome, estimated_backup_size, storage_dir_changes, BackupOptions, RestoreOptions, RestoreTarget};
use client_core::database::{BackupStatus, BackupType, TaskStatus};
use client_core::database_manager::{is_only_comments, parse_sql_statements, schema_statements, connection_stats, health_status, is_retryable_error, read_retry_delay, write_retry_delay};
use client_core::db::{decode_config_value, download_status_update_sql, init_statements, stored_config_value, task_status_update_sql};
use client_core::upgrade::{package_filename, pre_upgrade_backup, recovery_for, Recovery, RecoveryOutcome, UpgradeOptions, UpgradeResult};
use client_core::DuckError;

#[test]
fn transient_errors_are_retried_a_few_times() {
    assert!(is_retryable_error("IO Error: write-write conflict on key"));
    assert!(is_retryable_error("database is locked"));
    assert!(is_retryable_error("SQLITE_BUSY"));
    assert!(!is_retryable_error("syntax error"));
    assert_eq!(read_retry_delay("database is busy", 0), Some(100));
    assert_eq!(read_retry_delay("database is busy", 2), Some(300));
    assert_eq!(read_retry_delay("database is busy", 3), None);
    assert_eq!(read_retry_delay("no such table", 0), None);
    assert_eq!(write_retry_delay("SQLITE_LOCKED", 0), Some(200));
    assert_eq!(write_retry_delay("SQLITE_LOCKED", 1), Some(400));
    assert_eq!(write_retry_delay("SQLITE_LOCKED", 2), Some(800));
    assert_eq!(write_retry_delay("SQLITE_LOCKED", 3), None);
}

#[test]
fn connection_reports() {
    let f = connection_stats(true, false);
    assert_eq!(f.db_type, "file");
    assert!(!f.is_memory_db);
    let m = connection_stats(false, true);
    assert_eq!(m.db_type, "memory");
    assert!(m.is_memory_db);
    let h = health_status(Ok(()), Err("down".to_string()));
    assert!(h.read_healthy && !h.write_healthy);
    assert_eq!(h.read_error, None);
    assert_eq!(h.write_error.as_deref(), Some("down"));
}

#[test]
fn stored_kinds_round_trip() {
    for t in [BackupType::Manual, BackupType::PreUpgrade] {
        assert_eq!(BackupType::from_db_str(t.as_db_str()), t);
    }
    for s in [BackupStatus::Completed, BackupStatus::Failed] {
        assert_eq!(BackupStatus::from_db_str(s.as_db_str()), s);
    }
    for s in [TaskStatus::Pending, TaskStatus::InProgress, TaskStatus::Completed, TaskStatus::Failed, TaskStatus::Cancelled] {
        assert_eq!(TaskStatus::from_db_str(s.as_db_str()), s);
    }
    assert_eq!(BackupType::from_db_str("weird"), BackupType::Manual);
    assert_eq!(BackupStatus::from_db_str("weird"), BackupStatus::Failed);
    assert_eq!(TaskStatus::from_db_str("weird"), TaskStatus::Pending);
    assert_eq!(BackupType::PreUpgrade.as_db_str(), "pre-upgrade");
}

#[test]
fn backup_names_and_checks() {
    let o = BackupOptions {
        backup_type: BackupType::PreUpgrade,
        service_version: "1.2.0".to_string(),
        source_dirs: vec!["/a".to_string(), "/b".to_string()],
        compression_level: 6,
    };
    assert_eq!(o.backup_file_name("2025-01-02_03-04-05"), "backup_pre-upgrade_v1.2.0_2025-01-02_03-04-05.tar.gz");
    assert!(o.check_sources(&vec![true, true]).is_ok());
    match o.check_sources(&vec![true, false]) {
        Err(DuckError::Backup(m)) => assert_eq!(m, "源目录不存在: /b"),
        _ => panic!("expected a missing source"),
    }
    let keep = RestoreOptions { target_dir: "/t".to_string(), force_overwrite: false };
    let force = RestoreOptions { target_dir: "/t".to_string(), force_overwrite: true };
    assert_eq!(keep.target_action(false).unwrap(), RestoreTarget::Use);
    assert_eq!(force.target_action(true).unwrap(), RestoreTarget::Clear);
    match keep.target_action(true) {
        Err(DuckError::Backup(m)) => assert_eq!(m, "目标目录已存在，请使用 force_overwrite 选项"),
        _ => panic!("expected a refusal"),
    }
    assert_eq!(backup_outcome(true), BackupStatus::Completed);
    assert_eq!(backup_outcome(false), BackupStatus::Failed);
    assert_eq!(archive_entry_name("docker", "data/x.txt"), "docker/data/x.txt");
    assert_eq!(estimated_backup_size(1001), 500);
    assert!(!storage_dir_changes("/a", "/a"));
    assert!(storage_dir_changes("/a", "/b"));
}

#[test]
fn upgrade_outcomes() {
    let o = UpgradeOptions::default();
    assert!(!o.skip_backup && !o.force && !o.use_incremental && !o.download_only && o.backup_dir.is_none());
    assert_eq!(package_filename("https://x/y/docker.zip"), "docker.zip");
    assert_eq!(package_filename("docker.zip"), "docker.zip");
    assert_eq!(package_filename("https://x/y/"), "");
    let b = pre_upgrade_backup("1.0", "/srv/docker");
    assert_eq!(b.source_dirs, vec!["/srv/docker".to_string()]);
    assert_eq!(b.compression_level, 6);
    assert_eq!(recovery_for(Some(7), true), Recovery::Rollback(7));
    assert_eq!(recovery_for(None, true), Recovery::RestartServices);
    assert_eq!(recovery_for(None, false), Recovery::Nothing);
    let r = UpgradeResult::failed("1.0", "latest", "boom", Some(7), &RecoveryOutcome::RolledBack(7));
    assert!(!r.success);
    assert_eq!(r.error.as_deref(), Some("升级失败 (boom)，但已成功回滚到备份 ID 7"));
    let r = UpgradeResult::failed("1.0", "latest", "boom", None, &RecoveryOutcome::RestartFailed("no".to_string()));
    assert_eq!(r.error.as_deref(), Some("升级失败 (boom), 并且无法重启原始服务: no"));
    let r = UpgradeResult::failed("1.0", "latest", "boom", Some(-3), &RecoveryOutcome::RolledBack(-3));
    assert_eq!(r.error.as_deref(), Some("升级失败 (boom)，但已成功回滚到备份 ID -3"));
    let r = UpgradeResult::failed("1.0", "latest", "boom", None, &RecoveryOutcome::NotAttempted);
    assert_eq!(r.error.as_deref(), Some("boom"));
    let u = UpgradeResult::up_to_date("1.0");
    assert!(u.success && u.to_version == "1.0");
}

#[test]
fn database_actor_helpers() {
    assert_eq!(init_statements("CREATE TABLE a (x INT);\n  ;\nINSERT INTO a VALUES (1) ;  "), vec!["CREATE TABLE a (x INT)", "INSERT INTO a VALUES (1)"]);
    assert_eq!(stored_config_value("dark"), "\"dark\"");
    assert_eq!(decode_config_value("\"dark\""), "dark");
    assert_eq!(decode_config_value("123"), "123");
    assert_eq!(decode_config_value("not json"), "not json");
    assert!(download_status_update_sql(true, true).contains("downloaded_size = ?, error_message = ?"));
    assert!(!download_status_update_sql(false, false).contains("error_message"));
    assert!(task_status_update_sql(true).contains("details = ?"));
}

#[test]
fn authentication_rules() {
    let r = AuthRules { server_base_url: "https://api.example.com".to_string() };
    assert!(r.carries_identity("https://api.example.com/api/v1/x"));
    assert!(!r.carries_identity("https://api.example.com/api/v1/clients/register"));
    assert!(!r.carries_identity("https://cdn.example.org/x"));
    assert!(r.should_reregister(401, "https://api.example.com/api/v1/x"));
    assert!(!r.should_reregister(403, "https://api.example.com/api/v1/x"));
    assert!(!r.should_reregister(401, "https://api.example.com/api/v1/clients/register"));
    assert_eq!(registered_client_id(Some("id".to_string())).unwrap(), "id");
    match registered_client_id(None) {
        Err(DuckError::Api(m)) => assert_eq!(m, "注册响应格式无效"),
        _ => panic!("expected an invalid answer"),
    }
}

#[test]
fn error_messages() {
    assert_eq!(DuckError::custom("x".to_string()).message(), "自定义错误: x");
    assert_eq!(DuckError::docker("d".to_string()).message(), "Docker 命令执行失败: d");
    assert_eq!(DuckError::ClientNotRegistered.message(), "客户端未注册");
    assert_eq!(DuckError::ConfigNotFound.message(), "配置文件未找到");
    assert_eq!(DuckError::backup("b".to_string()).message(), "备份操作失败: b");
    assert_eq!(DuckError::upgrade("u".to_string()).message(), "升级操作失败: u");
    assert_eq!(DuckError::docker_service("s".to_string()).message(), "Docker服务错误: s");
}

#[test]
fn schema_script_statements_skip_comment_only_ones() {
    let sql = "CREATE TABLE a (x INT);\n-- only a comment\n;INSERT INTO t VALUES ('a;b');\nINSERT INTO c VALUES ({\"k\": 1; \"j\": 2});  ";
    assert_eq!(
        parse_sql_statements(sql),
        vec![
            "CREATE TABLE a (x INT)".to_string(),
            "-- only a comment".to_string(),
            "INSERT INTO t VALUES ('a;b')".to_string(),
            "INSERT INTO c VALUES ({\"k\": 1; \"j\": 2})".to_string(),
        ]
    );
    assert!(is_only_comments("-- a\n   \n  -- b"));
    assert!(!is_only_comments("-- a\nSELECT 1"));
    assert_eq!(
        schema_statements(sql),
        vec![
            "CREATE TABLE a (x INT)".to_string(),
            "INSERT INTO t VALUES ('a;b')".to_string(),
            "INSERT INTO c VALUES ({\"k\": 1; \"j\": 2})".to_string(),
        ]
    );
}

#[test]
fn failed_reregistration_names_its_cause() {
    match reregistration_failed(&DuckError::Api("注册失败: 500 - down".to_string())) {
        DuckError::Api(m) => assert_eq!(m, "认证失败且无法重新注册: API请求失败: 注册失败: 500 - down"),
        other => panic!("unexpected {:?}", other),
    }
}

#[test]
fn test_debug_sql_parsing() {
    let test_sql = r#"
        CREATE TABLE test1 (id INTEGER);
        INSERT INTO test1 VALUES (1);
        CREATE TABLE test2 (data JSON);
        INSERT INTO test2 VALUES ('{"key": "value; with semicolon"}');
        "#;
    let statements = parse_sql_statements(test_sql);
    assert_eq!(
        statements,
        vec![
            "CREATE TABLE test1 (id INTEGER)".to_string(),
            "INSERT INTO test1 VALUES (1)".to_string(),
            "CREATE TABLE test2 (data JSON)".to_string(),
            "INSERT INTO test2 VALUES ('{\"key\": \"value; with semicolon\"}')".to_string(),
        ]
    );
}
