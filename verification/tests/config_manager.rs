use client_core::config_manager::{
    progress_text, upgrade_task_from_row, upgrade_task_row, validate_value_type, ConfigCache,
    ConfigItem, ConfigType, ConfigUpdateRequest, ConfigValue, UpgradeTaskRow,
};
use client_core::DuckError;

fn item(key: &str, value: ConfigValue, t: ConfigType, category: &str, editable: bool, system: bool, default: Option<ConfigValue>) -> ConfigItem {
    ConfigItem {
        key: key.to_string(),
        value,
        config_type: t,
        category: category.to_string(),
        description: None,
        is_system_config: system,
        is_user_editable: editable,
        validation_rule: None,
        default_value: default,
    }
}

fn s(x: &str) -> ConfigValue {
    ConfigValue::String(x.to_string())
}

fn n(x: i64) -> ConfigValue {
    ConfigValue::Number { integer: Some(x), text: x.to_string() }
}

fn sample() -> ConfigCache {
    let mut c = ConfigCache::new();
    c.load(vec![
        item("app.version", s("0.1.0"), ConfigType::String, "app", false, true, None),
        item("app.first_run", ConfigValue::Bool(true), ConfigType::Boolean, "app", true, false, Some(ConfigValue::Bool(true))),
        item("ui.theme", s("auto"), ConfigType::String, "ui", true, false, Some(s("auto"))),
        item("ui.window_width", n(1200), ConfigType::Number, "ui", true, false, Some(n(1200))),
        item("ui.recent", ConfigValue::Array("[1,2]".to_string()), ConfigType::Array, "ui", true, false, None),
        item("ui.layout", ConfigValue::Object("{\"a\":1}".to_string()), ConfigType::Object, "ui", true, false, None),
    ]);
    c
}

fn custom_text(r: Result<(), DuckError>) -> String {
    match r {
        Err(DuckError::Custom(m)) => m,
        other => panic!("expected a custom error, got {:?}", other),
    }
}

#[test]
fn type_names_round_trip() {
    for t in [ConfigType::String, ConfigType::Number, ConfigType::Boolean, ConfigType::Object, ConfigType::Array] {
        assert_eq!(ConfigType::from_str(t.as_str()), Some(t));
    }
    assert_eq!(ConfigType::String.as_str(), "STRING");
    assert_eq!(ConfigType::from_str("string"), None);
}

#[test]
fn typed_reads() {
    let c = sample();
    assert!(c.is_initialized());
    assert_eq!(c.get_string("app.version").as_deref(), Some("0.1.0"));
    assert_eq!(c.get_integer("ui.window_width"), Some(1200));
    assert_eq!(c.get_bool("app.first_run"), Some(true));
    assert_eq!(c.get_string("ui.window_width"), None);
    assert_eq!(c.get_string("missing"), None);
    assert_eq!(c.get_array("ui.recent").as_deref(), Some("[1,2]"));
    assert_eq!(c.get_object("ui.layout").as_deref(), Some("{\"a\":1}"));
    assert_eq!(c.get_config("ui.theme").unwrap().category, "ui");
    assert!(c.get_config("nope").is_none());
}

#[test]
fn later_entries_replace_earlier_ones_on_load() {
    let mut c = ConfigCache::new();
    assert!(!c.is_initialized());
    c.load(vec![
        item("k", s("first"), ConfigType::String, "a", true, false, None),
        item("k", s("second"), ConfigType::String, "b", true, false, None),
    ]);
    assert_eq!(c.get_string("k").as_deref(), Some("second"));
    assert_eq!(c.config_stats().total_count, 1);
    c.invalidate();
    assert!(!c.is_initialized());
    assert_eq!(c.get_string("k").as_deref(), Some("second"));
}

#[test]
fn accepted_change_reads_back() {
    let mut c = sample();
    assert!(c.check_update("ui.theme", &s("dark")).is_ok());
    c.apply_update("ui.theme", s("dark"));
    assert_eq!(c.get_string("ui.theme").as_deref(), Some("dark"));
    assert_eq!(c.get_integer("ui.window_width"), Some(1200));
}

#[test]
fn refused_changes_name_their_reason() {
    let c = sample();
    assert_eq!(custom_text(c.check_update("app.version", &s("2.0.0"))), "配置项 app.version 不可编辑");
    assert_eq!(custom_text(c.check_update("nope", &s("x"))), "配置项 nope 不存在");
    assert_eq!(
        custom_text(c.check_update("ui.theme", &n(123))),
        "配置项 ui.theme 的值类型不匹配，期望 String，实际 Number(123)"
    );
    assert_eq!(
        custom_text(c.check_update("ui.theme", &ConfigValue::Array("[1,\"a\"]".to_string()))),
        "配置项 ui.theme 的值类型不匹配，期望 String，实际 Array [Number(1), String(\"a\")]"
    );
    assert!(!validate_value_type(&ConfigValue::Null, &ConfigType::String));
    assert!(validate_value_type(&n(1), &ConfigType::Number));
}

#[test]
fn batches_are_checked_whole_before_applying() {
    let mut c = sample();
    let good = vec![
        ConfigUpdateRequest { key: "ui.theme".to_string(), value: s("dark"), validate: true },
        ConfigUpdateRequest { key: "ui.window_width".to_string(), value: n(1600), validate: true },
    ];
    assert!(c.check_updates(&good).is_ok());
    c.apply_updates(good);
    assert_eq!(c.get_string("ui.theme").as_deref(), Some("dark"));
    assert_eq!(c.get_integer("ui.window_width"), Some(1600));

    let bad = vec![
        ConfigUpdateRequest { key: "ui.theme".to_string(), value: s("light"), validate: true },
        ConfigUpdateRequest { key: "ui.window_width".to_string(), value: s("wide"), validate: true },
        ConfigUpdateRequest { key: "nope".to_string(), value: s("x"), validate: true },
    ];
    assert_eq!(custom_text(c.check_updates(&bad)), "配置项 ui.window_width 的值类型不匹配");
    let unchecked = vec![ConfigUpdateRequest { key: "ui.window_width".to_string(), value: s("wide"), validate: false }];
    assert!(c.check_updates(&unchecked).is_ok());
}

#[test]
fn reset_restores_the_default() {
    let mut c = sample();
    c.apply_update("ui.theme", s("dark"));
    let d = c.reset_value("ui.theme").unwrap();
    assert!(c.check_update("ui.theme", &d).is_ok());
    c.apply_update("ui.theme", d);
    assert_eq!(c.get_string("ui.theme").as_deref(), Some("auto"));
    match c.reset_value("ui.recent") {
        Err(DuckError::Custom(m)) => assert_eq!(m, "配置项 ui.recent 没有默认值"),
        _ => panic!("expected no default"),
    }
    match c.reset_value("app.version") {
        Err(DuckError::Custom(m)) => assert_eq!(m, "配置项 app.version 不可编辑"),
        _ => panic!("expected a locked entry"),
    }
}

#[test]
fn selections_and_counts() {
    let c = sample();
    let ui = c.get_configs_by_category("ui");
    assert_eq!(ui.len(), 4);
    assert!(ui.iter().all(|x| x.category == "ui"));
    assert_eq!(c.get_user_editable_configs().len(), 5);
    let st = c.config_stats();
    assert_eq!(st.total_count, 6);
    assert_eq!(st.editable_count, 5);
    assert_eq!(st.system_count, 1);
    assert_eq!(st.category_stats, vec![("app".to_string(), 2), ("ui".to_string(), 4)]);
    let sum: usize = st.category_stats.iter().map(|e| e.1).sum();
    assert_eq!(sum, st.total_count);
}

#[test]
fn automatic_backup_settings_and_their_defaults() {
    let empty = ConfigCache::new();
    let d = empty.get_auto_backup_config();
    assert!(!d.enabled);
    assert_eq!(d.cron_expression, "0 2 * * *");
    assert_eq!(d.backup_retention_days, 7);
    assert_eq!(d.backup_directory, "./backups");
    assert_eq!(d.last_backup_time, None);
    let mut c = ConfigCache::new();
    c.load(vec![
        item("auto_backup_enabled", ConfigValue::Bool(true), ConfigType::Boolean, "backup", true, false, None),
        item("auto_backup_retention_days", n(30), ConfigType::Number, "backup", true, false, None),
        item("auto_backup_last_time", s("2025-01-01T00:00:00Z"), ConfigType::String, "backup", true, false, None),
    ]);
    let b = c.get_auto_backup_config();
    assert!(b.enabled);
    assert_eq!(b.backup_retention_days, 30);
    assert_eq!(b.last_backup_time.as_deref(), Some("2025-01-01T00:00:00+00:00"));
    let mut bad = ConfigCache::new();
    bad.load(vec![item("auto_backup_last_time", s("yesterday"), ConfigType::String, "backup", true, false, None)]);
    assert_eq!(bad.get_auto_backup_config().last_backup_time, None);
}

fn stored_row(progress: &str, schedule_time: &str) -> UpgradeTaskRow {
    UpgradeTaskRow {
        task_id: "t1".to_string(),
        task_name: "nightly".to_string(),
        schedule_time: schedule_time.to_string(),
        upgrade_type: "full".to_string(),
        target_version: "".to_string(),
        status: "pending".to_string(),
        progress: progress.to_string(),
        error_message: "boom".to_string(),
        created_at: "2025-01-01T08:00:00+08:00".to_string(),
        updated_at: "2025-01-01T00:00:00Z".to_string(),
    }
}

#[test]
fn upgrade_task_rows_are_read_back() {
    let t = upgrade_task_from_row(&stored_row("45", "2025-02-01T02:00:00Z")).unwrap();
    assert_eq!(t.schedule_time, "2025-02-01T02:00:00+00:00");
    assert_eq!(t.created_at, "2025-01-01T00:00:00+00:00");
    assert_eq!(t.target_version, None);
    assert_eq!(t.progress, Some(45));
    assert_eq!(t.error_message.as_deref(), Some("boom"));
    assert_eq!(upgrade_task_from_row(&stored_row("", "2025-02-01T02:00:00Z")).unwrap().progress, None);
    assert_eq!(upgrade_task_from_row(&stored_row("-7", "2025-02-01T02:00:00Z")).unwrap().progress, Some(-7));
    assert_eq!(upgrade_task_from_row(&stored_row("half", "2025-02-01T02:00:00Z")).unwrap().progress, None);
    assert_eq!(upgrade_task_from_row(&stored_row("45", "soon")).unwrap_err(), "schedule_time");

    let row = upgrade_task_row(&t);
    assert_eq!(row.target_version, "");
    assert_eq!(row.progress, "45");
    assert_eq!(row.error_message, "boom");
    let back = upgrade_task_from_row(&row).unwrap();
    assert_eq!(back.progress, t.progress);
    assert_eq!(back.schedule_time, t.schedule_time);
    assert_eq!(progress_text(Some(-12)), "-12");
    assert_eq!(progress_text(None), "");
}
