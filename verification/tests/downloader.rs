use client_core::downloader::{
    final_hash_check, resume_request, DownloadMetadata, DownloaderConfig, DownloaderType,
    FileDownloader, ProgressLog, ResumePlan, ResumeStep,
};

#[test]
fn test_aliyun_oss_url_detection() {
    let downloader = FileDownloader::default();

    let real_oss_url = "https://nuwa-packages.oss-rg-china-mainland.aliyuncs.com/duck-client-releases/docker/20250705082538/docker.zip";
    assert!(downloader.is_aliyun_oss_url(real_oss_url), "应该识别为阿里云 OSS URL");

    let test_cases = vec![
        ("https://bucket.oss-cn-hangzhou.aliyuncs.com/file.zip", true),
        ("https://my-bucket.oss-us-west-1.aliyuncs.com/path/file.tar.gz", true),
        ("https://test.oss-ap-southeast-1.aliyuncs.com/docker.zip", true),
        ("https://example.com/file.zip", false),
        ("https://github.com/user/repo/releases/download/v1.0.0/file.zip", false),
        ("ftp://bucket.oss-cn-beijing.aliyuncs.com/file.zip", false),
    ];

    for (url, expected) in test_cases {
        assert_eq!(
            downloader.is_aliyun_oss_url(url),
            expected,
            "URL: {} 应该返回 {}",
            url,
            expected
        );
    }
}

#[test]
fn test_downloader_type_detection() {
    let downloader = FileDownloader::default();

    let real_oss_url = "https://nuwa-packages.oss-rg-china-mainland.aliyuncs.com/duck-client-releases/docker/20250705082538/docker.zip";
    let downloader_type = downloader.get_downloader_type(real_oss_url);

    match downloader_type {
        DownloaderType::HttpExtendedTimeout => println!("✅ 正确识别为扩展超时 HTTP 下载（公网访问）"),
        DownloaderType::Http => println!("❌ 错误识别为普通 HTTP 下载"),
    }

    assert!(
        matches!(downloader_type, DownloaderType::HttpExtendedTimeout),
        "OSS文件应该使用扩展超时HTTP下载"
    );

    let http_url = "https://github.com/user/repo/releases/download/v1.0.0/file.zip";
    assert!(
        matches!(downloader.get_downloader_type(http_url), DownloaderType::Http),
        "普通 HTTP URL 应该使用标准下载"
    );
}

#[test]
fn default_downloader_settings() {
    let c = DownloaderConfig::default();
    assert_eq!(c.timeout_seconds, 1800);
    assert_eq!(c.chunk_size, 8192);
    assert_eq!(c.retry_count, 3);
    assert_eq!(c.resume_threshold, 1048576);
    assert_eq!(c.progress_interval_seconds, 5);
    assert_eq!(c.progress_bytes_interval, 52428800);
    assert!(c.enable_resume && c.enable_metadata && c.enable_progress_logging);
}

#[test]
fn metadata_identifies_its_task() {
    let mut m = DownloadMetadata::new_at(
        "https://x/a.zip".to_string(),
        100,
        Some("ABC".to_string()),
        "1.0".to_string(),
        "2025-01-01T00:00:00+00:00".to_string(),
    );
    assert_eq!(m.downloaded_bytes, 0);
    assert_eq!(m.start_time, m.last_update);
    assert!(m.is_same_task("https://x/a.zip", 100, "1.0"));
    assert!(!m.is_same_task("https://x/a.zip", 101, "1.0"));
    assert!(!m.is_same_task("https://x/b.zip", 100, "1.0"));
    assert!(!m.is_same_task("https://x/a.zip", 100, "2.0"));
    m.update_progress_at(40, "later".to_string());
    assert_eq!(m.downloaded_bytes, 40);
    assert_eq!(m.last_update, "later");
    assert_eq!(m.start_time, "2025-01-01T00:00:00+00:00");
    let fresh = DownloadMetadata::new("u".to_string(), 1, None, "v".to_string());
    assert_eq!(fresh.start_time, fresh.last_update);
}

fn plan(resume_from: Option<u64>, remove_file: bool, cleanup_metadata: bool) -> ResumePlan {
    ResumePlan { resume_from, remove_file, cleanup_metadata }
}

#[test]
fn resume_first_step_cases() {
    let d = FileDownloader::default();
    let mb = 1024 * 1024;
    assert_eq!(d.resume_first_step(None, 10 * mb, None, None), ResumeStep::Decided(plan(None, false, false)));
    assert_eq!(
        d.resume_first_step(Some(5 * mb), 10 * mb, Some("abc"), Some("ABC")),
        ResumeStep::Decided(plan(None, false, true))
    );
    assert_eq!(
        d.resume_first_step(Some(10 * mb), 10 * mb, Some("abc"), Some("def")),
        ResumeStep::Decided(plan(None, true, true))
    );
    assert_eq!(
        d.resume_first_step(Some(10 * mb), 10 * mb, None, None),
        ResumeStep::Decided(plan(None, false, true))
    );
    assert_eq!(
        d.resume_first_step(Some(1000), 10 * mb, None, None),
        ResumeStep::Decided(plan(None, true, true))
    );
    assert_eq!(d.resume_first_step(Some(2 * mb), 10 * mb, Some("a"), None), ResumeStep::NeedMetadata);
}

#[test]
fn resume_with_metadata_cases() {
    let d = FileDownloader::default();
    let m = DownloadMetadata::new_at(
        "u".to_string(),
        100,
        Some("AB".to_string()),
        "v".to_string(),
        "t".to_string(),
    );
    assert_eq!(d.resume_with_metadata(Some(&m), "u", 100, Some("ab"), "v", 40), plan(Some(40), false, false));
    assert_eq!(d.resume_with_metadata(Some(&m), "u", 100, Some("cd"), "v", 40), plan(None, true, true));
    assert_eq!(d.resume_with_metadata(Some(&m), "u", 100, None, "v", 40), plan(Some(40), false, false));
    assert_eq!(d.resume_with_metadata(Some(&m), "other", 100, None, "v", 40), plan(None, true, true));
    let no_hash = DownloadMetadata::new_at("u".to_string(), 100, None, "v".to_string(), "t".to_string());
    assert_eq!(d.resume_with_metadata(Some(&no_hash), "u", 100, Some("ab"), "v", 40), plan(None, true, true));
    assert_eq!(d.resume_with_metadata(None, "u", 100, Some("ab"), "v", 50), plan(Some(50), false, false));
    assert_eq!(d.resume_with_metadata(None, "u", 100, Some("ab"), "v", 49), plan(None, true, false));
    assert_eq!(d.resume_with_metadata(None, "u", 100, None, "v", 10), plan(Some(10), false, false));
}

#[test]
fn resume_requests_and_final_hash() {
    assert_eq!(resume_request(Some(1234)), (Some("bytes=1234-".to_string()), 206));
    assert_eq!(resume_request(None), (None, 200));
    assert!(final_hash_check(Some("abc"), Some("ABC")).is_ok());
    assert!(final_hash_check(Some("abc"), None).is_ok());
    assert!(final_hash_check(None, Some("x")).is_ok());
    match final_hash_check(Some("abc"), Some("abd")) {
        Err(client_core::DuckError::Custom(m)) => assert_eq!(m, "文件hash验证失败"),
        _ => panic!("expected a mismatch"),
    }
}

#[test]
fn progress_is_logged_by_bytes_time_or_completion() {
    let c = DownloaderConfig::default();
    let mut log = ProgressLog::new(0, 0);
    let s = log.step(&c, 1000, 100_000_000, 1000);
    assert!(!s.show && !s.save_metadata);
    assert_eq!(log.last_bytes, 0);
    let s = log.step(&c, 2000, 100_000_000, 5000);
    assert!(s.show && !s.save_metadata);
    assert_eq!((log.last_bytes, log.last_ms), (2000, 5000));
    let s = log.step(&c, 2000 + 600 * 1024 * 1024, 0, 5001);
    assert!(s.show && s.save_metadata);
    let s = log.step(&c, 100_000_000_000, 100_000_000_000, 5002);
    assert!(s.show);
}
