use client_core::config::{
    choose_config_file, join_path_str, AppConfig, BackupConfig, CacheConfig, ConfigSource,
    DockerConfig, UpdatesConfig, Versions,
};

fn app_config() -> AppConfig {
    AppConfig {
        versions: Versions { docker_service: "1.0.0".to_string() },
        docker: DockerConfig { compose_file: "docker/docker-compose.yml".to_string() },
        backup: BackupConfig { storage_dir: "./backups".to_string() },
        cache: CacheConfig { cache_dir: "./cacheDuckData".to_string(), download_dir: "./cacheDuckData/download".to_string() },
        updates: UpdatesConfig { check_frequency: "daily".to_string() },
    }
}

#[test]
fn config_file_is_chosen_in_order() {
    assert_eq!(choose_config_file(&vec![true, true, true]), ConfigSource::Existing("config.toml"));
    assert_eq!(choose_config_file(&vec![false, true, true]), ConfigSource::Existing("duck-client.toml"));
    assert_eq!(choose_config_file(&vec![false, false, true]), ConfigSource::Existing(".duck-client.toml"));
    assert_eq!(choose_config_file(&vec![false, false, false]), ConfigSource::CreateDefault("config.toml"));
}

#[test]
fn paths_are_joined_as_on_unix() {
    assert_eq!(join_path_str("a", "b"), "a/b");
    assert_eq!(join_path_str("a/", "b"), "a/b");
    assert_eq!(join_path_str("", "b"), "b");
    assert_eq!(join_path_str("a", "/b"), "/b");
    assert_eq!(join_path_str("a", ""), "a/");
    for (base, part) in [("x/y", "z"), ("x/", "z"), ("", "z"), ("x", "/abs"), ("x", "")] {
        let expected = std::path::Path::new(base).join(part);
        assert_eq!(join_path_str(base, part), expected.to_str().unwrap());
    }
    let c = app_config();
    assert_eq!(c.get_download_dir(), "./cacheDuckData/download");
    assert_eq!(c.get_version_download_dir("1.2.0", "full"), "./cacheDuckData/download/1.2.0/full");
    assert_eq!(
        c.get_version_download_file_path("1.2.0", "full", "docker.zip"),
        "./cacheDuckData/download/1.2.0/full/docker.zip"
    );
    assert_eq!(c.get_backup_dir(), "./backups");
}

#[test]
fn template_placeholders_are_filled() {
    let c = app_config();
    let t = "[versions]\ndocker_service = \"{docker_service_version}\"\n# {check_frequency} {check_frequency}\ncompose = \"{compose_file}\"\nbackup=\"{backup_storage_dir}\" cache=\"{cache_dir}\" dl=\"{download_dir}\" {unknown}";
    let out = c.to_toml_with_comments(t);
    assert_eq!(
        out,
        "[versions]\ndocker_service = \"1.0.0\"\n# daily daily\ncompose = \"docker/docker-compose.yml\"\nbackup=\"./backups\" cache=\"./cacheDuckData\" dl=\"./cacheDuckData/download\" {unknown}"
    );
    assert_eq!(out, t
        .replace("{docker_service_version}", "1.0.0")
        .replace("{compose_file}", "docker/docker-compose.yml")
        .replace("{backup_storage_dir}", "./backups")
        .replace("{cache_dir}", "./cacheDuckData")
        .replace("{download_dir}", "./cacheDuckData/download")
        .replace("{check_frequency}", "daily"));
}
