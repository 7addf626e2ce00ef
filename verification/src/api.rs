//! The messages exchanged with the update server, and the client's
//! decisions about them: which URLs to call, whether a package on disk is
//! current, and how a package is to be fetched.
use vstd::prelude::*;
use vstd::string::StringExecFns;
use crate::api_config::ApiConfig;
use crate::text::{
    has_prefix, lowercase, to_chars, from_chars, extend_str, starts_with, same_ignoring_case,
    to_lowercase, str_eq,
};
use crate::sql_diff::generator::opt_str;

pub mod system_info;

verus! {

broadcast use vstd::string::group_string_axioms;

/// The state of a download.
#[derive(Debug, Clone)]
pub enum DownloadStatus {
    Starting,
    Downloading,
    Paused,
    Completed,
    Failed(String),
}

#[derive(Debug, Clone)]
pub struct ClientRegisterRequest {
    pub os: String,
    pub arch: String,
}

#[derive(Debug, Clone)]
pub struct RegisterClientResponse {
    pub client_id: String,
}

/// The server's description of the current service release.
#[derive(Debug, Clone)]
pub struct ServiceManifest {
    pub version: String,
    pub release_date: String,
    pub release_notes: String,
    pub packages: ServicePackages,
}

#[derive(Debug, Clone)]
pub struct ServicePackages {
    pub full: PackageInfo,
    pub patch: Option<PackageInfo>,
}

/// A downloadable package: where it is, its hash (or `external` for one
/// hosted elsewhere), its signature and its size (0 where unknown).
#[derive(Debug, Clone)]
pub struct PackageInfo {
    pub url: String,
    pub hash: String,
    pub signature: String,
    pub size: u64,
}

#[derive(Debug, Clone)]
pub struct ClientManifest {
    pub version: String,
    pub notes: String,
    pub pub_date: String,
    pub platforms: Vec<(String, PlatformInfo)>,
}

#[derive(Debug, Clone)]
pub struct PlatformInfo {
    pub signature: String,
    pub url: String,
}

#[derive(Debug, Clone)]
pub struct ServiceUpgradeReport {
    pub from_version: String,
    pub to_version: String,
    pub status: String,
    pub details: String,
}

#[derive(Debug, Clone)]
pub struct ClientUpgradeReport {
    pub from_version: String,
    pub to_version: String,
    pub status: String,
    pub details: String,
}

#[derive(Debug, Clone)]
pub struct Announcement {
    pub id: i64,
    pub level: String,
    pub content: String,
    pub created_at: String,
}

#[derive(Debug, Clone)]
pub struct AnnouncementsResponse {
    pub announcements: Vec<Announcement>,
}

#[derive(Debug, Clone)]
pub struct DockerVersionResponse {
    pub current_version: String,
    pub latest_version: String,
    pub has_update: bool,
    pub release_notes: Option<String>,
}

#[derive(Debug, Clone)]
pub struct DockerVersionListResponse {
    pub versions: Vec<DockerVersion>,
}

#[derive(Debug, Clone)]
pub struct DockerVersion {
    pub version: String,
    pub release_date: String,
    pub notes: String,
    pub is_latest: bool,
}

#[derive(Debug, Clone)]
pub struct ServiceUpgradeHistoryRequest {
    pub service_name: String,
    pub from_version: String,
    pub to_version: String,
    pub status: String,
    pub details: Option<String>,
}

#[derive(Debug, Clone)]
pub struct ClientSelfUpgradeHistoryRequest {
    pub from_version: String,
    pub to_version: String,
    pub status: String,
    pub details: Option<String>,
}

/// What is known of a package file on disk.
#[derive(Debug, Clone, Copy, PartialEq, Eq, Structural)]
pub enum LocalFile {
    Missing,
    /// It exists, but its size could not be read.
    Unreadable,
    Present(u64),
}

/// Whether to download a package, and what to do with the hash record kept
/// beside it.
#[derive(Debug, Clone, Copy, PartialEq, Eq, Structural)]
pub struct DownloadDecision {
    pub download: bool,
    /// Delete a hash record left behind by a missing file.
    pub remove_hash_record: bool,
    /// Record the file's hash, found to match the server's.
    pub save_hash_record: bool,
}

pub open spec fn decision(download: bool, remove_hash_record: bool, save_hash_record: bool) -> DownloadDecision {
    DownloadDecision { download, remove_hash_record, save_hash_record }
}

pub open spec fn hashes_match(a: Seq<char>, b: Seq<char>) -> bool {
    lowercase(a) == lowercase(b)
}

/// Whether to download a package whose server hash is `remote`, from what
/// is known of the file on disk, its recorded hash and its actual hash (the
/// actual one absent where it could not be computed).
pub open spec fn download_decision(
    file: LocalFile,
    saved: Option<Seq<char>>,
    actual: Option<Seq<char>>,
    remote: Seq<char>,
) -> DownloadDecision {
    match file {
        LocalFile::Missing => decision(true, true, false),
        LocalFile::Unreadable => decision(true, false, false),
        LocalFile::Present(size) => if size == 0 {
            decision(true, false, false)
        } else {
            match saved {
                Some(s) => if hashes_match(s, remote) {
                    match actual {
                        Some(a) => decision(!hashes_match(a, s), false, false),
                        None => decision(true, false, false),
                    }
                } else {
                    decision(true, false, false)
                },
                None => match actual {
                    Some(a) => if hashes_match(a, remote) {
                        decision(false, false, true)
                    } else {
                        decision(true, false, false)
                    },
                    None => decision(true, false, false),
                },
            }
        },
    }
}

/// Whether a package is hosted elsewhere: its hash reads `external` in any
/// case.
pub open spec fn is_external(p: PackageInfo) -> bool {
    lowercase(p.hash@) == "external"@
}

pub open spec fn with_version(url: Seq<char>, version: Option<Seq<char>>) -> Seq<char> {
    match version {
        Some(v) => url + "?version="@ + v,
        None => url,
    }
}

/// The URL to fetch a package from, and whether the request carries the
/// client's credentials: an external package is fetched directly; a full
/// URL on this server through the API, with the version asked for; a full
/// URL elsewhere directly; a relative path through the download endpoint.
pub open spec fn download_source(c: ApiConfig, p: PackageInfo, version: Option<Seq<char>>) -> (
    Seq<char>,
    bool,
) {
    if is_external(p) {
        (p.url@, false)
    } else if has_prefix(p.url@, "http://"@) || has_prefix(p.url@, "https://"@) {
        if has_prefix(p.url@, c.base_url@) {
            (with_version(p.url@, version), true)
        } else {
            (p.url@, false)
        }
    } else {
        (with_version(c.base_url@ + c.endpoints.docker_download_full@, version), true)
    }
}

/// The client's view of the server: its configuration and identity.
#[derive(Debug, Clone)]
pub struct ApiClient {
    config: ApiConfig,
    client_id: Option<String>,
}

impl ApiClient {
    pub closed spec fn spec_config(&self) -> ApiConfig {
        self.config
    }

    pub closed spec fn spec_client_id(&self) -> Option<String> {
        self.client_id
    }

    pub fn new(config: ApiConfig, client_id: Option<String>) -> (r: ApiClient)
        ensures
            r.spec_config() == config,
            r.spec_client_id() == client_id,
    {
        ApiClient { config, client_id }
    }

    pub fn set_client_id(&mut self, client_id: String)
        ensures
            final(self).spec_client_id() == Some(client_id),
            final(self).spec_config() == old(self).spec_config(),
    {
        self.client_id = Some(client_id);
    }

    pub fn get_client_id(&self) -> (r: &Option<String>)
        ensures
            *r == self.spec_client_id(),
    {
        &self.client_id
    }

    pub fn get_config(&self) -> (r: &ApiConfig)
        ensures
            *r == self.spec_config(),
    {
        &self.config
    }

    /// The URL of the full service package.
    pub fn get_service_download_url(&self) -> (r: String)
        ensures
            r@ == self.spec_config().base_url@ + self.spec_config().endpoints.docker_download_full@,
    {
        self.config.get_endpoint_url(self.config.endpoints.docker_download_full.as_str())
    }

    /// The URL of the announcements, since `since` where given.
    pub fn announcements_url(&self, since: Option<&str>) -> (r: String)
        ensures
            r@ == (match since {
                Some(t) => self.spec_config().base_url@ + self.spec_config().endpoints.announcements@
                    + "?since="@ + t@,
                None => self.spec_config().base_url@ + self.spec_config().endpoints.announcements@,
            }),
    {
        let url = self.config.get_announcements_url();
        match since {
            Some(t) => {
                let mut v = to_chars(url.as_str());
                extend_str(&mut v, "?since=");
                extend_str(&mut v, t);
                from_chars(&v)
            },
            None => url,
        }
    }

    /// The version check's answer for a client at `current_version`: an
    /// update exists when the released version differs.
    pub fn docker_version_response(manifest: ServiceManifest, current_version: &str) -> (r:
        DockerVersionResponse)
        ensures
            r.current_version@ == current_version@,
            r.latest_version@ == manifest.version@,
            r.has_update == (manifest.version@ != current_version@),
            r.release_notes == Some(manifest.release_notes),
    {
        let has_update = !str_eq(manifest.version.as_str(), current_version);
        DockerVersionResponse {
            current_version: String::from_str(current_version),
            latest_version: manifest.version,
            has_update,
            release_notes: Some(manifest.release_notes),
        }
    }

    /// Whether a file whose hash is `actual_hash` is the one expected,
    /// ignoring case.
    pub fn verify_file_integrity(actual_hash: &str, expected_hash: &str) -> (r: bool)
        ensures
            r == hashes_match(actual_hash@, expected_hash@),
    {
        same_ignoring_case(actual_hash, expected_hash)
    }

    /// Whether a file must be downloaded again: its hash, where it could be
    /// computed, differs from the server's.
    pub fn needs_file_download(&self, actual_hash: Option<&str>, remote_hash: &str) -> (r: bool)
        ensures
            r == (match opt_str(actual_hash) {
                Some(a) => !hashes_match(a, remote_hash@),
                None => true,
            }),
    {
        match actual_hash {
            Some(a) => !same_ignoring_case(a, remote_hash),
            None => true,
        }
    }

    /// Whether to download a package (see `download_decision`).
    pub fn should_download_file(
        &self,
        file: LocalFile,
        saved_hash: Option<&str>,
        actual_hash: Option<&str>,
        remote_hash: &str,
    ) -> (r: DownloadDecision)
        ensures
            r == download_decision(file, opt_str(saved_hash), opt_str(actual_hash), remote_hash@),
    {
        let keep = DownloadDecision { download: true, remove_hash_record: false, save_hash_record: false };
        match file {
            LocalFile::Missing => DownloadDecision {
                download: true,
                remove_hash_record: true,
                save_hash_record: false,
            },
            LocalFile::Unreadable => keep,
            LocalFile::Present(size) => {
                if size == 0 {
                    return keep;
                }
                match saved_hash {
                    Some(s) => {
                        if !same_ignoring_case(s, remote_hash) {
                            return keep;
                        }
                        match actual_hash {
                            Some(a) => DownloadDecision {
                                download: !same_ignoring_case(a, s),
                                remove_hash_record: false,
                                save_hash_record: false,
                            },
                            None => keep,
                        }
                    },
                    None => match actual_hash {
                        Some(a) => if same_ignoring_case(a, remote_hash) {
                            DownloadDecision {
                                download: false,
                                remove_hash_record: false,
                                save_hash_record: true,
                            }
                        } else {
                            keep
                        },
                        None => keep,
                    },
                }
            },
        }
    }

    /// Whether `package` is hosted elsewhere.
    pub fn is_external_package(package: &PackageInfo) -> (r: bool)
        ensures
            r == is_external(*package),
    {
        let h = to_lowercase(package.hash.as_str());
        str_eq(h.as_str(), "external")
    }

    /// Whether a file of `file_size` bytes on disk (absent where there is
    /// none or its size is unknown) is to be checked against the package's
    /// hash before downloading: only for a package of this server whose size
    /// is known and matches.
    pub fn needs_hash_check(package: &PackageInfo, file_size: Option<u64>) -> (r: bool)
        ensures
            r == (!is_external(*package) && package.size > 0 && file_size == Some(package.size)),
    {
        if Self::is_external_package(package) {
            return false;
        }
        match file_size {
            Some(n) => package.size > 0 && n == package.size,
            None => false,
        }
    }

    /// The URL to fetch `package` from and whether to send credentials.
    pub fn download_source(&self, package: &PackageInfo, version: Option<&str>) -> (r: (String, bool))
        ensures
            (r.0@, r.1) == download_source(self.spec_config(), *package, opt_str(version)),
    {
        if Self::is_external_package(package) {
            return (package.url.clone(), false);
        }
        let u = to_chars(package.url.as_str());
        if starts_with(&u, &to_chars("http://")) || starts_with(&u, &to_chars("https://")) {
            if starts_with(&u, &to_chars(self.config.base_url.as_str())) {
                (add_version(package.url.as_str(), version), true)
            } else {
                (package.url.clone(), false)
            }
        } else {
            let url = self.config.get_docker_download_full_url();
            (add_version(url.as_str(), version), true)
        }
    }
}

fn add_version(url: &str, version: Option<&str>) -> (r: String)
    ensures
        r@ == with_version(url@, opt_str(version)),
{
    match version {
        Some(v) => {
            let mut c = to_chars(url);
            extend_str(&mut c, "?version=");
            extend_str(&mut c, v);
            from_chars(&c)
        },
        None => String::from_str(url),
    }
}

/// Law: a package whose recorded and actual hashes both match the
/// server's is not downloaded again, and a missing file always is.
pub proof fn law_current_package_not_downloaded(
    size: u64,
    saved: Seq<char>,
    actual: Seq<char>,
    remote: Seq<char>,
)
    requires
        size > 0,
        hashes_match(saved, remote),
        hashes_match(actual, saved),
    ensures
        !download_decision(LocalFile::Present(size), Some(saved), Some(actual), remote).download,
        download_decision(LocalFile::Missing, Some(saved), Some(actual), remote).download,
{
}

} // verus!
