//! Tests of the tool wrapper, the settings, the collaboration types, tokens,
//! the hash ring, the local queue, teams and the history.

use x_video_downloader::collaboration::client::queue::LocalQueue;
use x_video_downloader::collaboration::crypto::auth::{AuthError, AuthToken, DEFAULT_SHARED_SECRET};
use x_video_downloader::collaboration::crypto::hashring::HashRing;
use x_video_downloader::collaboration::ids::Timestamp;
use x_video_downloader::collaboration::server::teams::new_team;
use x_video_downloader::collaboration::types::{Device, Task, TaskStatus};
use x_video_downloader::config::AppConfig;
use x_video_downloader::history::History;
use x_video_downloader::yt_dlp::YtDlp;


/// A fresh random UUID value.
fn random_id() -> u128 {
    uuid::Uuid::new_v4().as_u128()
}

#[test]
fn test_ytdlp_creation() {
    let yt = YtDlp::new();
    assert!(yt.executable.contains("yt-dlp"));
}

#[test]
fn test_ytdlp_builder() {
    let yt = YtDlp::new().with_user_agent("test-agent".to_string());

    assert_eq!(yt.anti_bot.user_agent, Some("test-agent".to_string()));
}

#[test]
fn test_default_config() {
    let config = AppConfig::default();
    assert_eq!(config.concurrent_downloads, 3);
    assert_eq!(config.max_retries, 5);
    assert_eq!(config.server_addr, "ws://localhost:9000");
}

#[test]
fn test_config_path() {
    let path = AppConfig::config_path();
    println!("Config path: {:?}", path);
    if let Some(p) = path {
        assert!(p.contains("x-video-downloader"));
    }
}

#[test]
fn test_task_new() {
    let device_id = random_id();
    let team_id = random_id();
    let task = Task::new("https://example.com/video".to_string(), team_id, device_id);

    assert_eq!(task.url, "https://example.com/video");
    assert_eq!(task.team_id, team_id);
    assert_eq!(task.status, TaskStatus::New);
    assert_eq!(task.claimed_by, None);
    assert_eq!(f64::from_bits(task.progress), 0.0);
    assert_eq!(task.version, 1);
}

#[test]
fn test_task_status_default() {
    assert_eq!(TaskStatus::default(), TaskStatus::New);
}

#[test]
fn test_token_generate_and_verify() {
    let team_id = random_id();
    let device_id = random_id();

    let token = AuthToken::generate(team_id, device_id, DEFAULT_SHARED_SECRET);
    assert_eq!(token.team_id, team_id);
    assert_eq!(token.device_id, device_id);

    assert!(token.verify(DEFAULT_SHARED_SECRET).is_ok());
}

#[test]
fn test_token_serialization() {
    let team_id = random_id();
    let device_id = random_id();

    let token = AuthToken::generate(team_id, device_id, DEFAULT_SHARED_SECRET);
    let token_str = token.to_token_string();

    let parsed = AuthToken::parse(&token_str).unwrap();
    assert_eq!(parsed.team_id, team_id);
    assert_eq!(parsed.device_id, device_id);
    assert!(parsed.verify(DEFAULT_SHARED_SECRET).is_ok());
}

#[test]
fn test_invalid_signature() {
    let team_id = random_id();
    let device_id = random_id();

    let mut token = AuthToken::generate(team_id, device_id, DEFAULT_SHARED_SECRET);
    token.signature = "invalid".to_string();

    assert!(matches!(token.verify(DEFAULT_SHARED_SECRET), Err(AuthError::InvalidSignature)));
}

#[test]
fn test_expired_token() {
    let team_id = random_id();
    let device_id = random_id();

    let mut token = AuthToken::generate(team_id, device_id, DEFAULT_SHARED_SECRET);
    token.timestamp = 0;

    assert!(matches!(token.verify(DEFAULT_SHARED_SECRET), Err(AuthError::TokenExpired)));
}

#[test]
fn test_invalid_format() {
    assert!(AuthToken::parse("invalid").is_err());
    assert!(AuthToken::parse("a:b:c").is_err());
    assert!(AuthToken::parse("not-uuid:device:timestamp:signature").is_err());
}

fn device(name: &str, team_id: u128) -> Device {
    Device {
        id: random_id(),
        team_id,
        name: name.to_string(),
        public_ip: None,
        public_port: None,
        last_seen: Timestamp { secs: 1_700_000_000, nanos: 0 },
        is_online: true,
    }
}

#[test]
fn test_hash_ring_basic() {
    let mut ring = HashRing::new();

    let device1 = device("device1", random_id());
    let device2 = device("device2", device1.team_id);

    ring.add_device(&device1);
    ring.add_device(&device2);

    let url = "https://example.com/video";
    let owner = ring.get_owner(url);
    assert!(owner.is_some());

    let owner2 = ring.get_owner(url);
    assert_eq!(owner, owner2);

    ring.remove_device(device1.id);
    let owner3 = ring.get_owner(url);
    assert_eq!(owner3, Some(device2.id));
}

#[test]
fn test_empty_ring() {
    let ring = HashRing::new();
    let owner = ring.get_owner("test");
    assert!(owner.is_none());
}

#[test]
fn test_local_queue_add_task() {
    let device_id = random_id();
    let team_id = random_id();
    let mut queue = LocalQueue::new(device_id, team_id);

    let task = queue.add_task("https://example.com/video1").unwrap();
    assert_eq!(task.url, "https://example.com/video1");
    assert_eq!(task.status, TaskStatus::New);
}

#[test]
fn test_local_queue_duplicate_url() {
    let device_id = random_id();
    let team_id = random_id();
    let mut queue = LocalQueue::new(device_id, team_id);

    queue.add_task("https://example.com/video").unwrap();
    let result = queue.add_task("https://example.com/video");
    assert!(result.is_err());
}

#[test]
fn test_local_queue_claim_task() {
    let device_id = random_id();
    let team_id = random_id();
    let mut queue = LocalQueue::new(device_id, team_id);

    let task = queue.add_task("https://example.com/video").unwrap();
    queue.update_status_to_queued(task.id).unwrap();
    queue.claim_task(task.id).unwrap();

    let claimed = queue.get_task(task.id).unwrap();
    assert_eq!(claimed.status, TaskStatus::Claimed);
    assert_eq!(claimed.claimed_by, Some(device_id));
}

#[test]
fn test_local_queue_cannot_claim_completed() {
    let device_id = random_id();
    let team_id = random_id();
    let mut queue = LocalQueue::new(device_id, team_id);

    let task = queue.add_task("https://example.com/video").unwrap();
    queue.mark_complete(task.id, "/path/to/file.mp4".to_string(), 1024).unwrap();

    let result = queue.claim_task(task.id);
    assert!(result.is_err());
}

#[test]
fn test_local_queue_update_progress() {
    let device_id = random_id();
    let team_id = random_id();
    let mut queue = LocalQueue::new(device_id, team_id);

    let task = queue.add_task("https://example.com/video").unwrap();
    queue.update_progress(task.id, 0.5f64.to_bits()).unwrap();

    let updated = queue.get_task(task.id).unwrap();
    assert_eq!(f64::from_bits(updated.progress), 0.5);
}

#[test]
fn test_local_queue_mark_complete() {
    let device_id = random_id();
    let team_id = random_id();
    let mut queue = LocalQueue::new(device_id, team_id);

    let task = queue.add_task("https://example.com/video").unwrap();
    queue.mark_complete(task.id, "/path/to/file.mp4".to_string(), 1024).unwrap();

    let completed = queue.get_task(task.id).unwrap();
    assert_eq!(completed.status, TaskStatus::Complete);
    assert!(completed.local_path.is_some());
    assert_eq!(completed.file_size, Some(1024));
}

#[test]
fn test_create_team() {
    let team = new_team("Test Team");

    assert_eq!(team.name, "Test Team");
    assert_eq!(team.invite_code.len(), 16);
    assert!(team.invite_code.chars().all(|c| c.is_ascii_alphanumeric() || "!@#$%^&*".contains(c)));
}

#[test]
fn test_invite_code_is_unique() {
    let team1 = new_team("Team 1");
    let team2 = new_team("Team 2");

    assert_ne!(team1.invite_code, team2.invite_code);
}

#[test]
fn test_invite_code_format() {
    let team = new_team("Test Team");

    assert_eq!(team.invite_code.len(), 16);

    assert!(team.invite_code.chars().all(|c| c.is_ascii_alphanumeric() || "!@#$%^&*".contains(c)));
}

#[test]
fn test_history_add_and_search() {
    let mut history = History::new();

    history.add_entry(
        "https://example.com/video1".to_string(),
        Some("Video 1".to_string()),
        Some("/path/video1.mp4".to_string()),
        Some(1024),
        None,
    );

    assert_eq!(history.history_count(), 1);
    assert_eq!(history.get_recent(10).len(), 1);

    let found = history.search("example");
    assert_eq!(found.len(), 1);

    let not_found = history.search("nonexistent");
    assert!(not_found.is_empty());
}

#[test]
fn test_bookmarks() {
    let mut history = History::new();

    history
        .add_bookmark(
            "https://example.com/video".to_string(),
            Some("Bookmark Title".to_string()),
            None,
        )
        .unwrap();

    assert_eq!(history.bookmark_count(), 1);

    let bookmarks = history.get_bookmarks();
    assert_eq!(bookmarks[0].url, "https://example.com/video");
}

#[test]
fn test_remove_bookmark() {
    let mut history = History::new();

    history.add_bookmark("https://example.com/video".to_string(), None, None).unwrap();

    let bookmark = history.get_bookmarks()[0].clone();
    assert!(history.remove_bookmark(bookmark.id));
    assert_eq!(history.bookmark_count(), 0);
}

#[test]
fn config_path_inside_the_reported_directory() {
    assert_eq!(
        AppConfig::config_path_in(Some("/home/alice/.config/x-video-downloader".to_string())),
        Some("/home/alice/.config/x-video-downloader/config.toml".to_string())
    );
    assert_eq!(AppConfig::config_path_in(None), None);
}
