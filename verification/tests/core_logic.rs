use antman::config::DownloaderConfig;
use antman::content_length::{parse_content_length, probe_outcome};
use antman::error::DownloadError;
use antman::module::{archive_destination, resolve_module, unpack_destination, Module};
use antman::request::DownloadRequest;
use antman::transfer::{
    classify_status, plan_download, plan_probe, status_is_success, DestinationFile, HttpMethod,
};

#[test]
fn default_config_values() {
    let c = DownloaderConfig::default();
    assert_eq!(c.max_concurrent_downloads, 8);
    assert_eq!(c.timeout_ms, 30_000);
    assert_eq!(
        c.user_agent.as_deref(),
        Some("Mozilla/5.0 (compatible; Downloader/1.0)")
    );
    assert_eq!(c.retry_attempts, 5);
    assert_eq!(c.retry_delay_ms, 1_000);
}

#[test]
fn success_status_range() {
    assert!(status_is_success(200));
    assert!(status_is_success(204));
    assert!(status_is_success(299));
    assert!(!status_is_success(199));
    assert!(!status_is_success(300));
    assert!(!status_is_success(404));
    assert!(!status_is_success(500));
}

#[test]
fn non_success_status_fails_with_code() {
    assert!(classify_status(201).is_ok());
    assert!(matches!(classify_status(404), Err(DownloadError::HttpStatus(404))));
    assert!(matches!(classify_status(503), Err(DownloadError::HttpStatus(503))));
}

#[test]
fn content_length_parsing() {
    assert_eq!(parse_content_length(b"1024"), Some(1024));
    assert_eq!(parse_content_length(b"0"), Some(0));
    assert_eq!(parse_content_length(b"007"), Some(7));
    assert_eq!(parse_content_length(b"+17"), Some(17));
    assert_eq!(parse_content_length(b""), None);
    assert_eq!(parse_content_length(b"+"), None);
    assert_eq!(parse_content_length(b"12a"), None);
    assert_eq!(parse_content_length(b" 12"), None);
    assert_eq!(parse_content_length(b"18446744073709551615"), Some(u64::MAX));
    assert_eq!(parse_content_length(b"18446744073709551616"), None);
    assert_eq!(parse_content_length(b"99999999999999999999999"), None);
}

#[test]
fn probe_reads_content_length_header() {
    assert!(matches!(probe_outcome(200, Some(b"1024" as &[u8])), Ok(1024)));
}

#[test]
fn probe_uses_a_metadata_only_request() {
    let url = String::from("http://example.test/a.zip");
    let probe = plan_probe(&url);
    assert!(matches!(probe.method, HttpMethod::Head));
    assert_eq!(probe.url, url);
    let download = plan_download(&url);
    assert!(matches!(download.method, HttpMethod::Get));
    assert_eq!(download.url, url);
}

#[test]
fn probe_failures() {
    assert!(matches!(
        probe_outcome(404, Some(b"1024" as &[u8])),
        Err(DownloadError::HttpStatus(404))
    ));
    assert!(matches!(
        probe_outcome(200, None),
        Err(DownloadError::ContentLengthUnavailable)
    ));
    assert!(matches!(
        probe_outcome(200, Some(b"abc" as &[u8])),
        Err(DownloadError::ContentLengthUnavailable)
    ));
}

#[test]
fn rerun_truncates_prior_contents() {
    let mut file = DestinationFile::absent();
    let big: Vec<Vec<u8>> = vec![vec![1u8; 400], vec![2u8; 400]];
    antman::transfer::stream_body(&mut file, &big);
    assert_eq!(file.contents.len(), 800);

    let small: Vec<Vec<u8>> = vec![vec![9u8, 8u8, 7u8]];
    antman::transfer::stream_body(&mut file, &small);
    assert_eq!(file.contents, vec![9u8, 8u8, 7u8]);
}

#[test]
fn streamed_bytes_arrive_in_order() {
    let mut file = DestinationFile::absent();
    let chunks: Vec<Vec<u8>> = vec![vec![1, 2], vec![], vec![3], vec![4, 5, 6]];
    antman::transfer::stream_body(&mut file, &chunks);
    assert_eq!(file.contents, vec![1, 2, 3, 4, 5, 6]);
}

#[test]
fn request_construction() {
    let r = DownloadRequest::new(
        String::from("http://example.test/pkg.zip"),
        String::from("/tmp/pkg.zip"),
    );
    assert_eq!(r.url, "http://example.test/pkg.zip");
    assert_eq!(r.destination, "/tmp/pkg.zip");
}

#[test]
fn package_paths_are_built_under_the_modules_directory() {
    assert_eq!(
        archive_destination("/home/u/.antman/modules", "antlib"),
        "/home/u/.antman/modules/antlib.zip"
    );
    assert_eq!(
        unpack_destination("/home/u/.antman/modules", "antlib"),
        "/home/u/.antman/modules/antlib"
    );
}

#[test]
fn resolve_finds_first_matching_entry() {
    let index: Vec<(String, Module)> = vec![
        (
            String::from("alpha"),
            Module { version: String::from("1.0.0"), url: String::from("http://example.test/alpha.zip") },
        ),
        (
            String::from("beta"),
            Module { version: String::from("0.2.0"), url: String::from("http://example.test/beta.zip") },
        ),
        (
            String::from("alpha"),
            Module { version: String::from("9.9.9"), url: String::from("http://example.test/shadowed.zip") },
        ),
    ];

    let hit = resolve_module(&index, &String::from("alpha")).expect("alpha is present");
    assert_eq!(hit.version, "1.0.0");
    assert_eq!(hit.url, "http://example.test/alpha.zip");

    let beta = resolve_module(&index, &String::from("beta")).expect("beta is present");
    assert_eq!(beta.url, "http://example.test/beta.zip");

    assert!(resolve_module(&index, &String::from("gamma")).is_none());
}
