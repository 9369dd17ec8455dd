//! Tests of the shared types.

use x_video_downloader::types::{
    format_bytes, sanitize_filename, DownloadRequest, DownloadStatus, VideoInfo,
    DEFAULT_USER_AGENT,
};

#[test]
fn types_test_test_format_bytes() {
    assert_eq!(format_bytes(0), "0 B");
    assert_eq!(format_bytes(1024), "1.0 KB");
    assert_eq!(format_bytes(1024 * 1024), "1.0 MB");
    assert_eq!(format_bytes(1024 * 1024 * 1024), "1.0 GB");
    assert_eq!(format_bytes(1500), "1.5 KB");
    assert_eq!(format_bytes(1024 * 1024 + 512 * 1024), "1.5 MB");
}

#[test]
fn test_sanitize_filename() {
    assert_eq!(sanitize_filename("video"), "video");
    assert_eq!(sanitize_filename("my_video"), "my_video");

    assert_eq!(sanitize_filename("video:test"), "video_test");
    assert_eq!(sanitize_filename("video|test"), "video_test");
    assert_eq!(sanitize_filename("video\\test"), "video_test");
    assert_eq!(sanitize_filename("video*test"), "video_test");
    assert_eq!(sanitize_filename("video?test"), "video_test");
    assert_eq!(sanitize_filename("video\"test"), "video_test");
    assert_eq!(sanitize_filename("video<test>"), "video_test_");

    assert_eq!(sanitize_filename("../etc/passwd"), "video");
    assert_eq!(sanitize_filename("/etc/passwd"), "video");
    assert_eq!(sanitize_filename("~/secret"), "video");

    assert_eq!(sanitize_filename("video/test"), "video_test");

    assert_eq!(sanitize_filename("视频"), "视频");

    assert_eq!(sanitize_filename("video:*?|test"), "video____test");
}

#[test]
fn test_download_status_is_terminal() {
    assert!(DownloadStatus::Completed.is_terminal());
    assert!(DownloadStatus::Failed.is_terminal());
    assert!(DownloadStatus::Cancelled.is_terminal());
    assert!(!DownloadStatus::Pending.is_terminal());
    assert!(!DownloadStatus::Downloading.is_terminal());
}

#[test]
fn test_download_status_is_active() {
    assert!(DownloadStatus::Downloading.is_active());
    assert!(DownloadStatus::Preparing.is_active());
    assert!(!DownloadStatus::Completed.is_active());
    assert!(!DownloadStatus::Failed.is_active());
}

#[test]
fn test_video_info_creation() {
    let info = VideoInfo::new("Test Video".to_string(), "https://x.com/test".to_string());
    assert_eq!(info.title, "Test Video");
    assert_eq!(info.url, "https://x.com/test");
    assert!(info.duration.is_none());
}

#[test]
fn test_default_user_agent() {
    assert!(DEFAULT_USER_AGENT.contains("Mozilla/5.0"));
    assert!(DEFAULT_USER_AGENT.contains("Chrome"));
}

#[test]
fn types_test_format_bytes() {
    assert_eq!(format_bytes(0), "0 B");
    assert_eq!(format_bytes(1024), "1.0 KB");
    assert_eq!(format_bytes(1024 * 1024), "1.0 MB");
    assert_eq!(format_bytes(1536), "1.5 KB");
}

#[test]
fn test_download_request_builder() {
    let request = DownloadRequest::new("https://example.com/video", "/tmp/video.mp4")
        .with_format_id("1080p".to_string())
        .audio_only();

    assert_eq!(request.url, "https://example.com/video");
    assert_eq!(request.format_id, Some("1080p".to_string()));
    assert!(request.audio_only);
}

#[test]
fn test_download_status() {
    assert!(DownloadStatus::Completed.is_terminal());
    assert!(DownloadStatus::Failed.is_terminal());
    assert!(!DownloadStatus::Downloading.is_terminal());
    assert!(DownloadStatus::Downloading.is_active());
}
