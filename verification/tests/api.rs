use client_core::api::system_info::Info;
use client_core::api::{ApiClient, DownloadDecision, LocalFile, PackageInfo, ServiceManifest, ServicePackages};
use client_core::api_config::{ApiConfig, ApiEndpoints};

fn config() -> ApiConfig {
    ApiConfig {
        base_url: "https://api.example.com".to_string(),
        endpoints: ApiEndpoints {
            client_register: "/api/v1/clients/register".to_string(),
            announcements: "/api/v1/announcements".to_string(),
            docker_check_version: "/api/v1/docker/check".to_string(),
            docker_update_version_list: "/api/v1/docker/versions".to_string(),
            docker_download_full: "/api/v1/docker/download/full".to_string(),
            client_self_upgrade_history: "/api/v1/clients/upgrade-history".to_string(),
            service_upgrade_history: "/api/v1/services/{service_name}/upgrade-history".to_string(),
            telemetry: "/api/v1/telemetry".to_string(),
        },
    }
}

fn package(url: &str, hash: &str, size: u64) -> PackageInfo {
    PackageInfo { url: url.to_string(), hash: hash.to_string(), signature: String::new(), size }
}

#[test]
fn endpoint_urls_join_base_and_path() {
    let c = config();
    assert_eq!(c.get_endpoint_url("/x"), "https://api.example.com/x");
    assert_eq!(c.get_client_register_url(), "https://api.example.com/api/v1/clients/register");
    assert_eq!(c.get_telemetry_url(), "https://api.example.com/api/v1/telemetry");
    assert_eq!(
        c.get_service_upgrade_history_url("web"),
        "https://api.example.com/api/v1/services/web/upgrade-history"
    );
    let info = c.get_endpoints_info();
    assert_eq!(info.len(), 7);
    assert_eq!(info[0], ("服务器地址", "https://api.example.com".to_string()));
    assert_eq!(info[6].0, "上报遥测数据");
    let text = c.to_string();
    assert!(text.starts_with("当前API配置:\n服务器地址: https://api.example.com\n\n主要端点:\n"));
    assert!(text.ends_with("  上报遥测数据: https://api.example.com/api/v1/telemetry\n"));
    assert_eq!(text.lines().count(), 11);
}

#[test]
fn client_urls_and_version_answer() {
    let mut client = ApiClient::new(config(), None);
    assert!(client.get_client_id().is_none());
    client.set_client_id("abc".to_string());
    assert_eq!(client.get_client_id().as_deref(), Some("abc"));
    assert_eq!(client.get_service_download_url(), "https://api.example.com/api/v1/docker/download/full");
    assert_eq!(
        client.announcements_url(Some("2025-01-01")),
        "https://api.example.com/api/v1/announcements?since=2025-01-01"
    );
    let manifest = ServiceManifest {
        version: "1.2.0".to_string(),
        release_date: "d".to_string(),
        release_notes: "notes".to_string(),
        packages: ServicePackages { full: package("/p", "h", 1), patch: None },
    };
    let r = ApiClient::docker_version_response(manifest.clone(), "1.1.0");
    assert!(r.has_update);
    assert_eq!(r.latest_version, "1.2.0");
    assert_eq!(r.release_notes.as_deref(), Some("notes"));
    assert!(!ApiClient::docker_version_response(manifest, "1.2.0").has_update);
}

#[test]
fn download_decisions() {
    let client = ApiClient::new(config(), None);
    let d = |download, remove_hash_record, save_hash_record| DownloadDecision { download, remove_hash_record, save_hash_record };
    assert_eq!(client.should_download_file(LocalFile::Missing, None, None, "h"), d(true, true, false));
    assert_eq!(client.should_download_file(LocalFile::Present(0), None, None, "h"), d(true, false, false));
    assert_eq!(client.should_download_file(LocalFile::Unreadable, None, None, "h"), d(true, false, false));
    assert_eq!(client.should_download_file(LocalFile::Present(9), Some("AB"), Some("ab"), "ab"), d(false, false, false));
    assert_eq!(client.should_download_file(LocalFile::Present(9), Some("ab"), Some("cd"), "ab"), d(true, false, false));
    assert_eq!(client.should_download_file(LocalFile::Present(9), Some("old"), Some("ab"), "ab"), d(true, false, false));
    assert_eq!(client.should_download_file(LocalFile::Present(9), None, Some("AB"), "ab"), d(false, false, true));
    assert_eq!(client.should_download_file(LocalFile::Present(9), None, None, "ab"), d(true, false, false));
    assert!(client.needs_file_download(None, "x"));
    assert!(!client.needs_file_download(Some("X"), "x"));
    assert!(ApiClient::verify_file_integrity("ABC", "abc"));
}

#[test]
fn package_sources() {
    let client = ApiClient::new(config(), None);
    let ext = package("https://cdn.example.org/d.zip", "EXTERNAL", 0);
    assert!(ApiClient::is_external_package(&ext));
    assert_eq!(client.download_source(&ext, Some("1.0")), ("https://cdn.example.org/d.zip".to_string(), false));
    let own = package("https://api.example.com/files/d.zip", "abc", 10);
    assert_eq!(
        client.download_source(&own, Some("1.0")),
        ("https://api.example.com/files/d.zip?version=1.0".to_string(), true)
    );
    let other = package("http://mirror.example.net/d.zip", "abc", 10);
    assert_eq!(client.download_source(&other, None), ("http://mirror.example.net/d.zip".to_string(), false));
    let rel = package("files/d.zip", "abc", 10);
    assert_eq!(
        client.download_source(&rel, Some("2")),
        ("https://api.example.com/api/v1/docker/download/full?version=2".to_string(), true)
    );
    assert!(ApiClient::needs_hash_check(&own, Some(10)));
    assert!(!ApiClient::needs_hash_check(&own, Some(9)));
    assert!(!ApiClient::needs_hash_check(&own, None));
    assert!(!ApiClient::needs_hash_check(&ext, Some(0)));
}

#[test]
fn system_info_fields() {
    let i = Info::new("linux".to_string(), "x86_64".to_string());
    assert_eq!(i.os_type(), "linux");
    assert_eq!(i.version(), "x86_64");
}
