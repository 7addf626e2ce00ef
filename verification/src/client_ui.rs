//! The data of the desktop client's screens, and its decisions about the
//! working directory, the application's state and the host.
use vstd::prelude::*;
use vstd::string::StringExecFns;
use crate::config::{join_path, join_path_str};
use crate::text::{has_sub, to_chars, contains};

verus! {

broadcast use vstd::string::group_string_axioms;

#[derive(Debug, Clone)]
pub struct VersionInfo {
    pub client_version: String,
    pub service_version: String,
}

#[derive(Debug, Clone)]
pub struct UpgradeInfo {
    pub current_version: String,
    pub latest_version: String,
    pub has_update: bool,
    pub release_notes: Option<String>,
    pub download_size: Option<String>,
    pub estimated_time: Option<String>,
}

#[derive(Debug, Clone)]
pub struct ServiceInfo {
    pub name: String,
    pub status: String,
    pub uptime: Option<String>,
    pub ports: Vec<String>,
}

#[derive(Debug, Clone)]
pub struct ActivityLogEntry {
    pub timestamp: String,
    pub action: String,
    pub status: String,
    pub details: Option<String>,
}

#[derive(Debug, Clone)]
pub struct UpgradeCompletedEvent {
    pub success: bool,
    pub version: String,
    pub message: String,
}

#[derive(Debug, Clone)]
pub struct UiConfig {
    pub theme: String,
    pub language: String,
    pub auto_refresh: bool,
    pub refresh_interval: u32,
}

/// The application's state as the screens show it.
#[derive(Debug, Clone)]
pub struct AppStateInfo {
    pub state: String,
    pub initialized: bool,
    pub working_directory: Option<String>,
    pub last_error: Option<String>,
}

/// The state of the application working in `working_dir`: ready when its
/// `data` directory holds both the configuration and the database.
pub fn app_state_info(working_dir: &str, config_exists: bool, database_exists: bool) -> (r:
    AppStateInfo)
    ensures
        r.initialized == (config_exists && database_exists),
        r.state@ == (if config_exists && database_exists {
            "READY"@
        } else {
            "UNINITIALIZED"@
        }),
        r.working_directory matches Some(w) && w@ == working_dir@,
        r.last_error is None,
{
    let initialized = config_exists && database_exists;
    AppStateInfo {
        state: if initialized {
            String::from_str("READY")
        } else {
            String::from_str("UNINITIALIZED")
        },
        initialized,
        working_directory: Some(String::from_str(working_dir)),
        last_error: None,
    }
}

/// The default working directory: `Documents/DuckClient` in the home
/// directory, or `./DuckClient` where there is no home directory.
pub fn default_work_directory(home_dir: Option<&str>) -> (r: String)
    ensures
        r@ == (match home_dir {
            Some(h) => join_path(join_path(h@, "Documents"@), "DuckClient"@),
            None => "./DuckClient"@,
        }),
{
    match home_dir {
        Some(h) => {
            let d = join_path_str(h, "Documents");
            join_path_str(d.as_str(), "DuckClient")
        },
        None => String::from_str("./DuckClient"),
    }
}

/// Whether the output of `groups` names the `docker` group.
pub fn in_docker_group(groups_output: &str) -> (r: bool)
    ensures
        r == has_sub(groups_output@, "docker"@),
{
    contains(&to_chars(groups_output), &to_chars("docker"))
}

/// The space an installation needs: 60 GiB.
pub const REQUIRED_SPACE_BYTES: u64 = 60 * 1024 * 1024 * 1024;

/// The used space of a disk of `total_bytes` with `available_bytes` free,
/// and whether the free space suffices.
pub fn storage_figures(total_bytes: u64, available_bytes: u64) -> (r: (u64, bool))
    requires
        available_bytes <= total_bytes,
    ensures
        r.0 == total_bytes - available_bytes,
        r.1 == (available_bytes >= REQUIRED_SPACE_BYTES),
{
    (total_bytes - available_bytes, available_bytes >= REQUIRED_SPACE_BYTES)
}

} // verus!
