//! The decisions of the file downloader: which transport a URL needs, and
//! whether a partly downloaded file can be resumed.
//!
//! Whether a download can resume is decided in two steps, because the
//! second needs the task's metadata, which is read only when the first step
//! leaves the question open. The steps say what to do with the partial file
//! and with its metadata; the caller does it.
use vstd::prelude::*;
use vstd::string::StringExecFns;
use crate::text::{has_prefix, has_sub, to_chars, starts_with, contains, lowercase, same_ignoring_case};
use crate::sql_diff::types::{opt_view, copy_opt};
use crate::sql_diff::generator::opt_str;

verus! {

broadcast use vstd::string::group_string_axioms;

/// The state of a download.
#[derive(Debug, Clone)]
pub enum DownloadStatus {
    Starting,
    Downloading,
    Resuming,
    Paused,
    Completed,
    Failed(String),
}

/// What is known of a download task, kept beside the partial file.
#[derive(Debug, Clone)]
pub struct DownloadMetadata {
    pub url: String,
    pub expected_size: u64,
    pub expected_hash: Option<String>,
    pub downloaded_bytes: u64,
    pub start_time: String,
    pub last_update: String,
    pub version: String,
}

pub struct MetadataView {
    pub url: Seq<char>,
    pub expected_size: u64,
    pub expected_hash: Option<Seq<char>>,
    pub downloaded_bytes: u64,
    pub start_time: Seq<char>,
    pub last_update: Seq<char>,
    pub version: Seq<char>,
}

impl View for DownloadMetadata {
    type V = MetadataView;

    open spec fn view(&self) -> MetadataView {
        MetadataView {
            url: self.url@,
            expected_size: self.expected_size,
            expected_hash: opt_view(self.expected_hash),
            downloaded_bytes: self.downloaded_bytes,
            start_time: self.start_time@,
            last_update: self.last_update@,
            version: self.version@,
        }
    }
}

pub open spec fn same_task(m: MetadataView, url: Seq<char>, expected_size: u64, version: Seq<char>) -> bool {
    m.url == url && m.expected_size == expected_size && m.version == version
}

impl DownloadMetadata {
    /// A task that has downloaded nothing yet, started at `now`.
    pub fn new_at(
        url: String,
        expected_size: u64,
        expected_hash: Option<String>,
        version: String,
        now: String,
    ) -> (r: DownloadMetadata)
        ensures
            r@ == (MetadataView {
                url: url@,
                expected_size,
                expected_hash: opt_view(expected_hash),
                downloaded_bytes: 0,
                start_time: now@,
                last_update: now@,
                version: version@,
            }),
    {
        let later = now.clone();
        DownloadMetadata {
            url,
            expected_size,
            expected_hash,
            downloaded_bytes: 0,
            start_time: now,
            last_update: later,
            version,
        }
    }

    /// A task that has downloaded nothing yet, started now.
    pub fn new(url: String, expected_size: u64, expected_hash: Option<String>, version: String) -> (r:
        DownloadMetadata)
        ensures
            r@.url == url@,
            r@.expected_size == expected_size,
            r@.expected_hash == opt_view(expected_hash),
            r@.downloaded_bytes == 0,
            r@.start_time == r@.last_update,
            crate::clock::is_rfc3339_stamp(r@.start_time),
            r@.version == version@,
    {
        let now = crate::clock::utc_now_rfc3339();
        Self::new_at(url, expected_size, expected_hash, version, now)
    }

    /// Records `downloaded_bytes` as the progress at `now`.
    pub fn update_progress_at(&mut self, downloaded_bytes: u64, now: String)
        ensures
            final(self)@ == (MetadataView {
                downloaded_bytes,
                last_update: now@,
                ..old(self)@
            }),
    {
        self.downloaded_bytes = downloaded_bytes;
        self.last_update = now;
    }

    /// Records `downloaded_bytes` as the progress now.
    pub fn update_progress(&mut self, downloaded_bytes: u64)
        ensures
            final(self)@.downloaded_bytes == downloaded_bytes,
            final(self)@.url == old(self)@.url,
            final(self)@.expected_size == old(self)@.expected_size,
            final(self)@.expected_hash == old(self)@.expected_hash,
            final(self)@.start_time == old(self)@.start_time,
            final(self)@.version == old(self)@.version,
            crate::clock::is_rfc3339_stamp(final(self)@.last_update),
    {
        let now = crate::clock::utc_now_rfc3339();
        self.update_progress_at(downloaded_bytes, now);
    }

    /// Whether this records the download of `url`, of `expected_size`
    /// bytes, for `version`.
    pub fn is_same_task(&self, url: &str, expected_size: u64, version: &str) -> (r: bool)
        ensures
            r == same_task(self@, url@, expected_size, version@),
    {
        self.url == url.to_string() && self.expected_size == expected_size && self.version
            == version.to_string()
    }
}

/// How a file is downloaded.
#[derive(Debug, Clone, Copy, PartialEq, Eq, Structural)]
pub enum DownloaderType {
    Http,
    HttpExtendedTimeout,
}

/// The settings of the downloader.
#[derive(Debug, Clone)]
pub struct DownloaderConfig {
    pub timeout_seconds: u64,
    pub chunk_size: usize,
    pub retry_count: u32,
    pub enable_progress_logging: bool,
    pub enable_resume: bool,
    pub resume_threshold: u64,
    pub progress_interval_seconds: u64,
    pub progress_bytes_interval: u64,
    pub enable_metadata: bool,
}

impl Default for DownloaderConfig {
    /// Half an hour of timeout, 8 KiB chunks, three retries, resuming from
    /// 1 MiB on, progress every 5 s or 50 MiB, with metadata kept.
    fn default() -> (r: DownloaderConfig)
        ensures
            r.timeout_seconds == 30 * 60,
            r.chunk_size == 8192,
            r.retry_count == 3,
            r.enable_progress_logging,
            r.enable_resume,
            r.resume_threshold == 1024 * 1024,
            r.progress_interval_seconds == 5,
            r.progress_bytes_interval == 50 * 1024 * 1024,
            r.enable_metadata,
    {
        DownloaderConfig {
            timeout_seconds: 30 * 60,
            chunk_size: 8192,
            retry_count: 3,
            enable_progress_logging: true,
            enable_resume: true,
            resume_threshold: 1024 * 1024,
            progress_interval_seconds: 5,
            progress_bytes_interval: 50 * 1024 * 1024,
            enable_metadata: true,
        }
    }
}

/// What to do with a partial download.
#[derive(Debug, Clone, Copy, PartialEq, Eq, Structural)]
pub struct ResumePlan {
    /// The offset to resume from, or `None` to start over (or not download).
    pub resume_from: Option<u64>,
    /// Whether the partial file is to be deleted.
    pub remove_file: bool,
    /// Whether the task's metadata is to be deleted.
    pub cleanup_metadata: bool,
}

/// The outcome of the first step of the resume decision.
#[derive(Debug, Clone, Copy, PartialEq, Eq, Structural)]
pub enum ResumeStep {
    Decided(ResumePlan),
    /// The task's metadata decides; see `resume_with_metadata`.
    NeedMetadata,
}

pub open spec fn plan(resume_from: Option<u64>, remove_file: bool, cleanup_metadata: bool) -> ResumePlan {
    ResumePlan { resume_from, remove_file, cleanup_metadata }
}

/// The first step: from whether the file exists and its size, the expected
/// size, the resume threshold, and the expected and actual hashes (the
/// actual one absent where it could not be computed).
pub open spec fn resume_first_step(
    file_size: Option<u64>,
    total_size: u64,
    threshold: u64,
    expected_hash: Option<Seq<char>>,
    actual_hash: Option<Seq<char>>,
) -> ResumeStep {
    match file_size {
        None => ResumeStep::Decided(plan(None, false, false)),
        Some(size) => if expected_hash is Some && actual_hash is Some && lowercase(
            actual_hash->Some_0,
        ) == lowercase(expected_hash->Some_0) {
            ResumeStep::Decided(plan(None, false, true))
        } else if size >= total_size {
            ResumeStep::Decided(plan(None, expected_hash is Some, true))
        } else if size < threshold {
            ResumeStep::Decided(plan(None, true, true))
        } else {
            ResumeStep::NeedMetadata
        },
    }
}

/// The second step, for a file of `size` bytes: from the task's metadata,
/// if any was kept.
pub open spec fn resume_second_step(
    metadata: Option<MetadataView>,
    url: Seq<char>,
    total_size: u64,
    expected_hash: Option<Seq<char>>,
    version: Seq<char>,
    size: u64,
) -> ResumePlan {
    match metadata {
        Some(m) => if same_task(m, url, total_size, version) {
            match expected_hash {
                Some(e) => match m.expected_hash {
                    Some(mh) => if lowercase(mh) == lowercase(e) {
                        plan(Some(size), false, false)
                    } else {
                        plan(None, true, true)
                    },
                    None => plan(None, true, true),
                },
                None => plan(Some(size), false, false),
            }
        } else {
            plan(None, true, true)
        },
        None => match expected_hash {
            Some(_) => if 2 * size >= total_size {
                plan(Some(size), false, false)
            } else {
                plan(None, true, false)
            },
            None => plan(Some(size), false, false),
        },
    }
}

pub open spec fn opt_metadata(o: Option<&DownloadMetadata>) -> Option<MetadataView> {
    match o {
        Some(m) => Some(m@),
        None => None,
    }
}

/// Whether a URL is one of Aliyun OSS: HTTPS, on `aliyuncs.com`, with an
/// `oss-` region.
pub open spec fn is_oss_url(url: Seq<char>) -> bool {
    has_prefix(url, "https://"@) && has_sub(url, "aliyuncs.com"@) && has_sub(url, "oss-"@)
}

/// The downloader's decisions, by its settings.
#[derive(Debug, Clone)]
pub struct FileDownloader {
    config: DownloaderConfig,
}

impl FileDownloader {
    pub fn new(config: DownloaderConfig) -> (r: FileDownloader)
        ensures
            r.config() == config,
    {
        FileDownloader { config }
    }

    pub closed spec fn config(&self) -> DownloaderConfig {
        self.config
    }

    /// A downloader with the default settings.
    pub fn default() -> (r: FileDownloader)
        ensures
            r.config().timeout_seconds == 30 * 60,
            r.config().chunk_size == 8192,
            r.config().retry_count == 3,
            r.config().enable_progress_logging,
            r.config().enable_resume,
            r.config().resume_threshold == 1024 * 1024,
            r.config().progress_interval_seconds == 5,
            r.config().progress_bytes_interval == 50 * 1024 * 1024,
            r.config().enable_metadata,
    {
        FileDownloader::new(DownloaderConfig::default())
    }

    /// The settings.
    pub fn get_config(&self) -> (r: &DownloaderConfig)
        ensures
            *r == self.config(),
    {
        &self.config
    }

    /// Whether `url` is an Aliyun OSS URL.
    pub fn is_aliyun_oss_url(&self, url: &str) -> (r: bool)
        ensures
            r == is_oss_url(url@),
    {
        let u = to_chars(url);
        starts_with(&u, &to_chars("https://")) && contains(&u, &to_chars("aliyuncs.com"))
            && contains(&u, &to_chars("oss-"))
    }

    /// Aliyun OSS URLs are downloaded with the extended timeout, others
    /// plainly.
    pub fn get_downloader_type(&self, url: &str) -> (r: DownloaderType)
        ensures
            r == (if is_oss_url(url@) {
                DownloaderType::HttpExtendedTimeout
            } else {
                DownloaderType::Http
            }),
    {
        if self.is_aliyun_oss_url(url) {
            DownloaderType::HttpExtendedTimeout
        } else {
            DownloaderType::Http
        }
    }

    /// The first step of the resume decision. `file_size` is the size of the
    /// partial file, absent when there is none; `actual_hash` is its hash,
    /// absent where none is expected or it could not be computed.
    pub fn resume_first_step(
        &self,
        file_size: Option<u64>,
        total_size: u64,
        expected_hash: Option<&str>,
        actual_hash: Option<&str>,
    ) -> (r: ResumeStep)
        ensures
            r == resume_first_step(
                file_size,
                total_size,
                self.config().resume_threshold,
                opt_str(expected_hash),
                opt_str(actual_hash),
            ),
    {
        let size = match file_size {
            None => {
                return ResumeStep::Decided(
                    ResumePlan { resume_from: None, remove_file: false, cleanup_metadata: false },
                );
            },
            Some(s) => s,
        };
        match (expected_hash, actual_hash) {
            (Some(e), Some(a)) => {
                if same_ignoring_case(a, e) {
                    return ResumeStep::Decided(
                        ResumePlan { resume_from: None, remove_file: false, cleanup_metadata: true },
                    );
                }
            },
            _ => {},
        }
        if size >= total_size {
            return ResumeStep::Decided(
                ResumePlan {
                    resume_from: None,
                    remove_file: expected_hash.is_some(),
                    cleanup_metadata: true,
                },
            );
        }
        if size < self.config.resume_threshold {
            return ResumeStep::Decided(
                ResumePlan { resume_from: None, remove_file: true, cleanup_metadata: true },
            );
        }
        ResumeStep::NeedMetadata
    }

    /// The second step of the resume decision, for a partial file of
    /// `file_size` bytes and the task's metadata, if any was kept.
    pub fn resume_with_metadata(
        &self,
        metadata: Option<&DownloadMetadata>,
        url: &str,
        total_size: u64,
        expected_hash: Option<&str>,
        version: &str,
        file_size: u64,
    ) -> (r: ResumePlan)
        ensures
            r == resume_second_step(
                opt_metadata(metadata),
                url@,
                total_size,
                opt_str(expected_hash),
                version@,
                file_size,
            ),
    {
        let resume = ResumePlan { resume_from: Some(file_size), remove_file: false, cleanup_metadata: false };
        let restart = ResumePlan { resume_from: None, remove_file: true, cleanup_metadata: true };
        match metadata {
            Some(m) => {
                if !m.is_same_task(url, total_size, version) {
                    return restart;
                }
                match expected_hash {
                    Some(e) => match &m.expected_hash {
                        Some(mh) => if same_ignoring_case(mh.as_str(), e) {
                            resume
                        } else {
                            restart
                        },
                        None => restart,
                    },
                    None => resume,
                }
            },
            None => match expected_hash {
                Some(_) => {
                    let twice: u128 = (file_size as u128) * 2;
                    if twice >= total_size as u128 {
                        resume
                    } else {
                        ResumePlan { resume_from: None, remove_file: true, cleanup_metadata: false }
                    }
                },
                None => resume,
            },
        }
    }
}

/// Law: a download resumes only from the end of a partial file that is
/// shorter than the whole, at least as long as the resume threshold, and
/// kept rather than deleted.
pub proof fn law_resume_from_partial_end(
    size: u64,
    total_size: u64,
    threshold: u64,
    expected_hash: Option<Seq<char>>,
    actual_hash: Option<Seq<char>>,
    metadata: Option<MetadataView>,
    url: Seq<char>,
    version: Seq<char>,
)
    requires
        resume_first_step(Some(size), total_size, threshold, expected_hash, actual_hash)
            == ResumeStep::NeedMetadata,
    ensures
        resume_second_step(metadata, url, total_size, expected_hash, version, size).resume_from
            matches Some(n) ==> n == size && threshold <= n < total_size && !resume_second_step(
            metadata,
            url,
            total_size,
            expected_hash,
            version,
            size,
        ).remove_file,
{
}

/// Law: a file whose hash matches the expected one is neither deleted nor
/// downloaded again.
pub proof fn law_matching_hash_is_kept(
    size: u64,
    total_size: u64,
    threshold: u64,
    expected: Seq<char>,
    actual: Seq<char>,
)
    requires
        lowercase(actual) == lowercase(expected),
    ensures
        resume_first_step(Some(size), total_size, threshold, Some(expected), Some(actual))
            == ResumeStep::Decided(plan(None, false, true)),
{
}

/// The request of a download that resumes from `existing_size` bytes (or
/// starts afresh): its `Range` header and the status that must answer it.
pub fn resume_request(existing_size: Option<u64>) -> (r: (Option<String>, u16))
    ensures
        match existing_size {
            Some(n) => r.1 == 206 && (r.0 matches Some(h) && h@ == "bytes="@ + crate::split::decimal(
                n as nat,
            ) + "-"@),
            None => r.1 == 200 && r.0 is None,
        },
{
    match existing_size {
        Some(n) => {
            let mut v = to_chars("bytes=");
            crate::text::extend_chars(&mut v, &crate::split::decimal_chars(n));
            crate::text::extend_str(&mut v, "-");
            (Some(crate::text::from_chars(&v)), 206)
        },
        None => (None, 200),
    }
}

/// The final check of a finished download: where a hash is expected and
/// the file's hash could be computed, they must match.
pub fn final_hash_check(expected_hash: Option<&str>, actual_hash: Option<&str>) -> (r: Result<
    (),
    crate::error::DuckError,
>)
    ensures
        match (opt_str(expected_hash), opt_str(actual_hash)) {
            (Some(e), Some(a)) => if lowercase(a) == lowercase(e) {
                r is Ok
            } else {
                r matches Err(crate::error::DuckError::Custom(m)) && m@ == "文件hash验证失败"@
            },
            _ => r is Ok,
        },
{
    match (expected_hash, actual_hash) {
        (Some(e), Some(a)) => if same_ignoring_case(a, e) {
            Ok(())
        } else {
            Err(crate::error::DuckError::Custom(String::from_str("文件hash验证失败")))
        },
        _ => Ok(()),
    }
}

/// What to do after a chunk arrived: log the progress, and save the
/// task's metadata.
#[derive(Debug, Clone, Copy, PartialEq, Eq, Structural)]
pub struct ProgressStep {
    pub show: bool,
    pub save_metadata: bool,
}

/// When progress was last logged: the bytes downloaded then, and the time
/// in milliseconds.
#[derive(Debug, Clone, Copy)]
pub struct ProgressLog {
    pub last_bytes: u64,
    pub last_ms: u64,
}

/// Half a gigabyte: the progress after which metadata is saved.
pub const METADATA_SAVE_BYTES: u64 = 500 * 1024 * 1024;

/// Five minutes in milliseconds: the time after which metadata is saved.
pub const METADATA_SAVE_MS: u64 = 300 * 1000;

pub open spec fn progress_due(c: DownloaderConfig, log: ProgressLog, downloaded: u64, total: u64, now_ms: u64) -> bool {
    (downloaded - log.last_bytes) >= c.progress_bytes_interval || (now_ms - log.last_ms) >= c.progress_interval_seconds * 1000
        || (total > 0 && downloaded >= total)
}

impl ProgressLog {
    /// A log that starts at `start_bytes` at time `start_ms`.
    pub fn new(start_bytes: u64, start_ms: u64) -> (r: ProgressLog)
        ensures
            r.last_bytes == start_bytes,
            r.last_ms == start_ms,
    {
        ProgressLog { last_bytes: start_bytes, last_ms: start_ms }
    }

    /// The decision after a chunk brought the download to `downloaded`
    /// bytes at `now_ms`: log when logging is on and enough bytes or time
    /// passed or the download is complete; save metadata on such a log when
    /// metadata is kept and half a gigabyte or five minutes passed. A log
    /// moves the marks to now.
    pub fn step(&mut self, config: &DownloaderConfig, downloaded: u64, total: u64, now_ms: u64) -> (r:
        ProgressStep)
        requires
            old(self).last_bytes <= downloaded,
            old(self).last_ms <= now_ms,
        ensures
            r.show == (config.enable_progress_logging && progress_due(*config, *old(self), downloaded, total, now_ms)),
            r.save_metadata == (r.show && config.enable_metadata && ((downloaded - old(self).last_bytes)
                >= METADATA_SAVE_BYTES || (now_ms - old(self).last_ms) >= METADATA_SAVE_MS)),
            r.show ==> final(self).last_bytes == downloaded && final(self).last_ms == now_ms,
            !r.show ==> *final(self) == *old(self),
    {
        if !config.enable_progress_logging {
            return ProgressStep { show: false, save_metadata: false };
        }
        let bytes_since = downloaded - self.last_bytes;
        let ms_since = now_ms - self.last_ms;
        let interval_ms: u128 = (config.progress_interval_seconds as u128) * 1000;
        let show = bytes_since >= config.progress_bytes_interval || (ms_since as u128) >= interval_ms
            || (total > 0 && downloaded >= total);
        if !show {
            return ProgressStep { show: false, save_metadata: false };
        }
        self.last_bytes = downloaded;
        self.last_ms = now_ms;
        let save = config.enable_metadata && (bytes_since >= METADATA_SAVE_BYTES || ms_since
            >= METADATA_SAVE_MS);
        ProgressStep { show: true, save_metadata: save }
    }
}

} // verus!
