use client_core::sql_diff::differ::{generate_column_diffs, generate_index_diffs, generate_mysql_diff, generate_mysql_diff_at, generate_table_diff};
use client_core::sql_diff::generator::{generate_column_sql, generate_create_table_sql, generate_index_sql, generate_schema_diff_at};
use client_core::sql_diff::generate_schema_diff;
use client_core::sql_diff::parser::parse_sql_tables;
use client_core::sql_diff::types::{TableColumn, TableIndex};
use client_core::sql_text::split_sql_statements;
use client_core::DuckError;

const SCRIPT: &str = "USE app;\nCREATE TABLE users (\n  id INT NOT NULL AUTO_INCREMENT,\n  name VARCHAR(64) NOT NULL DEFAULT 'x' COMMENT 'who',\n  PRIMARY KEY (id),\n  UNIQUE KEY uk_name (name)\n) ENGINE=InnoDB DEFAULT CHARSET=utf8mb4;\nCREATE TABLE posts (\n  id INT NOT NULL,\n  KEY idx_id (id)\n);\n";

const REFORMATTED: &str = "-- the same tables, laid out otherwise\nUSE app;\n\nCREATE TABLE users (id INT NOT NULL AUTO_INCREMENT, name VARCHAR(64) NOT NULL DEFAULT 'x' COMMENT 'who', PRIMARY KEY (id), UNIQUE KEY uk_name (name)) ENGINE=InnoDB DEFAULT CHARSET=utf8mb4;\n\nCREATE TABLE posts (id INT NOT NULL, KEY idx_id (id));\n";

#[test]
fn a_schema_compared_with_itself_gives_no_statement() {
    let s = parse_sql_tables(SCRIPT).unwrap();
    assert_eq!(s.len(), 2);
    assert_eq!(generate_mysql_diff_at(&s, &s, "2025-01-01 00:00:00 UTC"), "");
    assert_eq!(generate_mysql_diff(&s, &s).unwrap(), "");
    for t in s.tables() {
        assert!(generate_table_diff(t, t).is_empty());
    }
}

#[test]
fn layout_only_changes_are_described_as_such() {
    let (diff, description) =
        generate_schema_diff_at(Some(SCRIPT), REFORMATTED, Some("1.0.0"), "1.0.1", "now").unwrap();
    assert_eq!(diff, "");
    assert_eq!(description, "版本 1.0.0 到 1.0.1: 仅有注释或格式变化，无实际架构差异");
    let (diff, description) = generate_schema_diff(Some(SCRIPT), REFORMATTED, None, "2").unwrap();
    assert_eq!(diff, "");
    assert_eq!(description, "版本 unknown 到 2: 仅有注释或格式变化，无实际架构差异");
}

#[test]
fn identical_scripts_are_unchanged() {
    let (diff, description) =
        generate_schema_diff_at(Some("  x  "), "x", Some("1"), "2", "now").unwrap();
    assert_eq!(diff, "");
    assert_eq!(description, "版本 1 到 2: 无变化");
}

#[test]
fn the_first_version_is_the_whole_script() {
    let (diff, description) = generate_schema_diff(None, SCRIPT, None, "1.0.0").unwrap();
    assert_eq!(diff, SCRIPT);
    assert_eq!(description, "初始版本 1.0.0 的完整数据库架构");
}

#[test]
fn an_added_column_gives_one_statement_and_its_description() {
    let to = SCRIPT.replace("  PRIMARY KEY (id),\n  UNIQUE", "  age INT,\n  PRIMARY KEY (id),\n  UNIQUE");
    let (diff, description) = generate_schema_diff_at(Some(SCRIPT), &to, Some("1"), "2", "T").unwrap();
    assert_eq!(
        diff,
        "-- 数据库架构差异SQL\n-- 生成时间: T\n\n-- 修改表: users\nALTER TABLE `users` ADD COLUMN `age` INT;\n"
    );
    assert_eq!(description, "版本 1 到 2: 新增列 - 生成 1 行可执行的差异SQL");
}

#[test]
fn unreadable_create_table_is_an_error() {
    match generate_schema_diff_at(Some("CREATE TABLE t (a INT"), "CREATE TABLE t (a INT);", None, "2", "T") {
        Err(DuckError::Custom(m)) => assert_eq!(m, "CREATE TABLE 语句的列定义未闭合"),
        other => panic!("unexpected {:?}", other),
    }
    match parse_sql_tables("CREATE TABLE t;") {
        Err(e) => assert_eq!(e.message(), "CREATE TABLE 语句缺少列定义"),
        Ok(_) => panic!("expected an error"),
    }
}

#[test]
fn generated_definitions() {
    let c = TableColumn {
        name: "name".to_string(),
        data_type: "VARCHAR(64)".to_string(),
        nullable: false,
        default_value: Some("x".to_string()),
        auto_increment: false,
        comment: Some("who".to_string()),
    };
    assert_eq!(generate_column_sql(&c), "`name` VARCHAR(64) NOT NULL DEFAULT 'x' COMMENT 'who'");
    let k = TableIndex {
        name: "uk_name".to_string(),
        columns: vec!["name".to_string()],
        is_primary: false,
        is_unique: true,
        index_type: None,
    };
    assert_eq!(generate_index_sql(&k), "UNIQUE KEY `uk_name` (`name`)");
    let s = parse_sql_tables(SCRIPT).unwrap();
    let sql = generate_create_table_sql(s.get("posts").unwrap());
    assert!(sql.starts_with("CREATE TABLE `posts` ("));
}

#[test]
fn statements_are_split_at_semicolons_outside_quotes() {
    let text: Vec<char> = "INSERT INTO t VALUES ('a;b');\n  SELECT 1 ;;".chars().collect();
    let parts: Vec<String> = split_sql_statements(&text).into_iter().map(|v| v.into_iter().collect()).collect();
    assert_eq!(parts, vec!["INSERT INTO t VALUES ('a;b')".to_string(), "SELECT 1".to_string()]);
}

#[test]
fn changed_columns_and_indexes_are_redefined() {
    let to = SCRIPT
        .replace("name VARCHAR(64) NOT NULL", "name VARCHAR(128) NOT NULL")
        .replace("UNIQUE KEY uk_name (name)", "KEY uk_name (name)")
        .replace("  KEY idx_id (id)\n", "  id2 INT\n");
    let from = parse_sql_tables(SCRIPT).unwrap();
    let new = parse_sql_tables(&to).unwrap();
    let users_old = from.tables().iter().find(|t| t.name == "users").unwrap();
    let users_new = new.tables().iter().find(|t| t.name == "users").unwrap();
    assert_eq!(
        generate_table_diff(users_old, users_new),
        vec![
            "ALTER TABLE `users` MODIFY COLUMN `name` VARCHAR(128) NOT NULL DEFAULT 'x' COMMENT 'who';".to_string(),
            "ALTER TABLE `users` DROP KEY `uk_name`;".to_string(),
            "ALTER TABLE `users` ADD KEY `uk_name` (`name`);".to_string(),
        ]
    );
    let text = |v: Vec<Vec<char>>| -> Vec<String> { v.into_iter().map(|l| l.into_iter().collect()).collect() };
    assert_eq!(
        text(generate_column_diffs(users_old, users_new)),
        vec!["ALTER TABLE `users` MODIFY COLUMN `name` VARCHAR(128) NOT NULL DEFAULT 'x' COMMENT 'who';".to_string()]
    );
    assert_eq!(
        text(generate_index_diffs(users_old, users_new)),
        vec!["ALTER TABLE `users` DROP KEY `uk_name`;".to_string(), "ALTER TABLE `users` ADD KEY `uk_name` (`name`);".to_string()]
    );
    assert!(generate_column_diffs(users_old, users_old).is_empty());
    let posts_old = from.tables().iter().find(|t| t.name == "posts").unwrap();
    let posts_new = new.tables().iter().find(|t| t.name == "posts").unwrap();
    assert_eq!(
        generate_table_diff(posts_old, posts_new),
        vec![
            "ALTER TABLE `posts` ADD COLUMN `id2` INT;".to_string(),
            "ALTER TABLE `posts` DROP KEY `idx_id`;".to_string(),
        ]
    );
}
