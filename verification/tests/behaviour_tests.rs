//! Tests of the library's decisions on concrete values.

use x_video_downloader::cli::{
    choose_output_dir, direct_download_request, entry_label, format_row, history_command,
    parse_batch_urls, run_mode, size_label, ytdlp_format, ytdlp_job, DownloadOptions,
    HistoryCommand, ModeFlags, RunMode,
};
use x_video_downloader::collaboration::client::discovery::DiscoveryService;
use x_video_downloader::collaboration::client::ws::{
    peer_download_for, reconnect_step, ClientSession, ConnectionState, ReconnectStep,
};
use x_video_downloader::collaboration::crypto::auth::{AuthError, AuthToken, DEFAULT_SHARED_SECRET};
use x_video_downloader::collaboration::server::ws::{
    authenticate, authenticate_at, first_frame_action, new_session_key, rejection_reply, session_update_for,
    AuthRejection, FirstFrameAction, IncomingFrame,
};
use x_video_downloader::collaboration::transfer::downloader::{
    chunk_dir_name, chunk_file_name, closed_range_header, open_range_header, peer_file_url,
    resume_step, ChunkJob, ChunkedDownloader, ParallelPlan, ResumeStep,
};
use x_video_downloader::collaboration::transfer::http_server::{
    not_found_reply, parse_range, range_reply, reply_header, requested_task_id, serve_plan,
    FileServer, RangeReply, Route,
};
use x_video_downloader::collaboration::ids::Timestamp;
use x_video_downloader::collaboration::server::handler::{plan_claim, plan_progress, plan_timeouts, TaskPlan};
use x_video_downloader::collaboration::types::{ClientMessage, ServerMessage, Task, TaskStatus};
use x_video_downloader::downloader::{attempt_delay, content_length_from, resume_range_header, segment_retry_delay};
use x_video_downloader::gui::{
    display_formats, download_outcome, duration_line, final_format, format_label, validate_url, App,
    Command, Message,
};
use x_video_downloader::history::{History, HistoryError};
use x_video_downloader::text::{first_word, is_whitespace, lines, split_char, trim};
use x_video_downloader::theme::{current_palette, is_dark_mode, toggle_theme, Palette, ThemeMode};
use x_video_downloader::types::{format_bytes, VideoFormat, VideoInfo};
use x_video_downloader::yt_dlp::YtDlp;

fn chars(s: &str) -> Vec<char> {
    s.chars().collect()
}

fn text(v: &[char]) -> String {
    v.iter().collect()
}

// --- connection state -------------------------------------------------------


/// A fresh random UUID value.
fn new_uuid() -> u128 {
    uuid::Uuid::new_v4().as_u128()
}

#[test]
fn connection_state_codes_round_trip() {
    for v in 0u64..50 {
        assert_eq!(ConnectionState::from_u64(v).to_u64(), v);
    }
    assert_eq!(ConnectionState::from_u64(0), ConnectionState::Disconnected);
    assert_eq!(ConnectionState::from_u64(1), ConnectionState::Connecting);
    assert_eq!(ConnectionState::from_u64(2), ConnectionState::Connected);
    assert_eq!(ConnectionState::from_u64(3), ConnectionState::Failed);
    assert_eq!(ConnectionState::from_u64(7), ConnectionState::Reconnecting { attempt: 3 });
    assert_eq!(ConnectionState::from_u64(u64::MAX), ConnectionState::Reconnecting { attempt: u64::MAX - 4 });
    let s = ConnectionState::Reconnecting { attempt: 5 };
    assert_eq!(ConnectionState::from_u64(s.to_u64()), s);
}

#[test]
fn reconnect_schedule() {
    let mut waits = Vec::new();
    for attempt in 1u64..=10 {
        match reconnect_step(attempt) {
            ReconnectStep::Retry { state, backoff_secs } => {
                assert_eq!(state, ConnectionState::Reconnecting { attempt });
                waits.push(backoff_secs);
            }
            ReconnectStep::GiveUp => panic!("gave up too early"),
        }
    }
    assert_eq!(waits, vec![1, 2, 4, 8, 16, 30, 30, 30, 30, 30]);
    assert_eq!(reconnect_step(11), ReconnectStep::GiveUp);
}

// --- authentication handshake ------------------------------------------------

#[test]
fn auth_line_is_accepted_by_the_server() {
    let team = new_uuid();
    let device = new_uuid();
    let session = ClientSession::new("ws://localhost:9000", team, device, "laptop");
    let line = session.auth_message(DEFAULT_SHARED_SECRET);
    assert!(line.starts_with("AUTH:"));
    assert_eq!(authenticate(&line, DEFAULT_SHARED_SECRET), Ok((team, device)));
    assert_eq!(
        authenticate(&line, "another secret"),
        Err(AuthRejection::Refused { error: AuthError::InvalidSignature })
    );
}

#[test]
fn auth_line_rejections() {
    assert_eq!(authenticate("no colon here", DEFAULT_SHARED_SECRET), Err(AuthRejection::BadFormat));
    assert_eq!(authenticate("HELLO:a:b:c:d", DEFAULT_SHARED_SECRET), Err(AuthRejection::BadFormat));
    assert_eq!(authenticate("AUTH:not-a-token", DEFAULT_SHARED_SECRET), Err(AuthRejection::BadFormat));
    let token = AuthToken::generate_at(new_uuid(), new_uuid(), 1000, DEFAULT_SHARED_SECRET);
    let line = format!("AUTH:{}", token.to_token_string());
    assert_eq!(authenticate_at(&line, 1300, DEFAULT_SHARED_SECRET), Ok((token.team_id, token.device_id)));
    assert_eq!(
        authenticate_at(&line, 1301, DEFAULT_SHARED_SECRET),
        Err(AuthRejection::Refused { error: AuthError::TokenExpired })
    );
    match rejection_reply(AuthRejection::BadFormat) {
        ServerMessage::Error { message } => assert_eq!(message, "无效的认证格式"),
        _ => panic!("expected an error message"),
    }
    match rejection_reply(AuthRejection::Refused { error: AuthError::TokenExpired }) {
        ServerMessage::Error { message } => assert_eq!(message, "认证失败: TokenExpired"),
        _ => panic!("expected an error message"),
    }
}

#[test]
fn first_frames() {
    assert!(matches!(
        first_frame_action(IncomingFrame::Text("AUTH:x".to_string()), false),
        FirstFrameAction::Authenticate(t) if t == "AUTH:x"
    ));
    assert!(matches!(first_frame_action(IncomingFrame::Close, false), FirstFrameAction::Closed));
    assert!(matches!(
        first_frame_action(IncomingFrame::Ping(vec![1, 2]), false),
        FirstFrameAction::ReplyPong(d) if d == vec![1, 2]
    ));
    assert!(matches!(first_frame_action(IncomingFrame::Failed, false), FirstFrameAction::Fail));
    assert!(matches!(first_frame_action(IncomingFrame::Binary, false), FirstFrameAction::Invalid));
    assert!(matches!(first_frame_action(IncomingFrame::Close, true), FirstFrameAction::Invalid));
    assert!(matches!(
        first_frame_action(IncomingFrame::Text("x".to_string()), true),
        FirstFrameAction::Authenticate(_)
    ));
}

#[test]
fn registration_updates_the_session() {
    let msg = ClientMessage::Register { device_id: 7, team_id: 9, name: "d".to_string() };
    assert_eq!(session_update_for(&msg), Some((7, 9)));
    assert_eq!(session_update_for(&ClientMessage::Heartbeat { device_id: 7 }), None);
}

#[test]
fn client_messages() {
    let session = ClientSession::new("ws://s", 1, 2, "dev");
    assert!(matches!(session.register_message(),
        ClientMessage::Register { device_id: 2, team_id: 1, name } if name == "dev"));
    assert!(matches!(session.add_task("u"), ClientMessage::AddTask { url } if url == "u"));
    assert!(matches!(session.leave_team(), ClientMessage::LeaveTeam { device_id: 2 }));
    assert!(matches!(session.join_team("CODE"), ClientMessage::JoinTeam { invite_code } if invite_code == "CODE"));
}

#[test]
fn file_announcement_becomes_a_download() {
    let id = new_uuid();
    let msg = ServerMessage::FileAvailable {
        task_id: id,
        from_device: 3,
        ip: "10.0.0.2".to_string(),
        port: 8080,
        filename: "clip.mp4".to_string(),
        size: 10,
    };
    let d = peer_download_for(&msg, "/downloads").unwrap();
    assert_eq!(d.ip, "10.0.0.2");
    assert_eq!(d.port, 8080);
    assert_eq!(d.task_id, uuid::Uuid::from_u128(id).to_string());
    assert_eq!(d.output_path, "/downloads/clip.mp4");
    assert!(peer_download_for(&ServerMessage::DeviceOffline { device_id: 1 }, "/d").is_none());
}

#[test]
fn discovery_default_server() {
    assert_eq!(DiscoveryService::new(None).stun_server, "stun.l.google.com:19302");
    assert_eq!(DiscoveryService::new(Some("s:1".to_string())).stun_server, "s:1");
}

// --- peer transfer -----------------------------------------------------------

#[test]
fn peer_urls_and_ranges() {
    assert_eq!(peer_file_url("1.2.3.4", 8080, "abc"), "http://1.2.3.4:8080/file/abc");
    assert_eq!(open_range_header(100), "bytes=100-");
    assert_eq!(closed_range_header(0, 1023), "bytes=0-1023");
    assert_eq!(resume_range_header(0), None);
    assert_eq!(resume_range_header(42), Some("bytes=42-".to_string()));
    assert_eq!(chunk_dir_name("t1"), ".tmp_t1");
    assert_eq!(chunk_file_name(3), "chunk_3");
    assert_eq!(resume_step(10, 10), ResumeStep::Complete { total: 10 });
    assert_eq!(resume_step(4, 10), ResumeStep::FetchFrom { offset: 4 });
    assert_eq!(content_length_from(Some("1234")), Some(1234));
    assert_eq!(content_length_from(Some("12a")), None);
    assert_eq!(content_length_from(None), None);
}

#[test]
fn parallel_plans() {
    let d = ChunkedDownloader::new(10);
    assert_eq!(d.connect_timeout_secs, 10);
    assert!(matches!(d.parallel_plan(20, 4), ParallelPlan::Single));
    match d.parallel_plan(25, 2) {
        ParallelPlan::Chunks { num_chunks, jobs, concurrency } => {
            assert_eq!(num_chunks, 3);
            assert_eq!(concurrency, 2);
            assert_eq!(
                jobs,
                vec![
                    ChunkJob { index: 0, start: 0, end: 9 },
                    ChunkJob { index: 1, start: 10, end: 19 },
                    ChunkJob { index: 2, start: 20, end: 24 },
                ]
            );
        }
        ParallelPlan::Single => panic!("expected chunks"),
    }
    match d.parallel_plan(25, 8) {
        ParallelPlan::Chunks { jobs, concurrency, .. } => {
            assert_eq!(concurrency, 3);
            assert_eq!(jobs.len(), 3);
            assert_eq!(jobs[2], ChunkJob { index: 2, start: 20, end: 24 });
        }
        ParallelPlan::Single => panic!("expected chunks"),
    }
    // Chunks of one byte: every chunk is planned, even over one connection.
    let one = ChunkedDownloader::new(1);
    match one.parallel_plan(10, 1) {
        ParallelPlan::Chunks { num_chunks, jobs, concurrency } => {
            assert_eq!((num_chunks, concurrency), (10, 1));
            assert_eq!(jobs.len(), 10);
            assert_eq!(jobs[9], ChunkJob { index: 9, start: 9, end: 9 });
        }
        ParallelPlan::Single => panic!("expected chunks"),
    }
    match one.parallel_plan(3, 0) {
        ParallelPlan::Chunks { concurrency, jobs, .. } => {
            assert_eq!(concurrency, 1);
            assert_eq!(jobs.len(), 3);
        }
        ParallelPlan::Single => panic!("expected chunks"),
    }
}

#[test]
fn file_server_routing() {
    let id = new_uuid();
    let id_text = uuid::Uuid::from_u128(id).to_string();
    let mut server = FileServer::new(8080);
    assert_eq!(server.port(), 8080);
    assert!(server.register_file(id, "/srv/files/a.mp4".to_string(), "/srv/files").is_ok());
    assert!(server.register_file(new_uuid(), "/etc/passwd".to_string(), "/srv/files").is_err());

    assert!(matches!(server.route_request(b""), Route::Ignore));
    let plain = format!("GET /file/{} HTTP/1.1\r\nHost: x\r\n\r\n", id_text);
    assert!(matches!(server.route_request(plain.as_bytes()), Route::NotFound));
    let nested = format!("GET /file/x/{} HTTP/1.1\r\nRange: bytes=0-99\r\n\r\n", id_text);
    match server.route_request(nested.as_bytes()) {
        Route::Serve { path, range } => {
            assert_eq!(path, "/srv/files/a.mp4");
            assert_eq!(range, Some((0, Some(99))));
        }
        _ => panic!("expected the file to be served"),
    }
    assert_eq!(requested_task_id(&chars(&format!("GET /file/a/{} x", id_text))), Some(id));
    server.unregister_file(id);
    assert!(matches!(server.route_request(nested.as_bytes()), Route::NotFound));
}

#[test]
fn range_headers() {
    let ls = |s: &str| -> Vec<Vec<char>> { s.lines().map(|l| l.chars().collect()).collect() };
    assert_eq!(parse_range(&ls("GET /\nRange: bytes=0-99")), Some((0, Some(99))));
    assert_eq!(parse_range(&ls("range: bytes=5-")), Some((5, None)));
    assert_eq!(parse_range(&ls("RANGE: BYTES=7")), Some((7, None)));
    assert_eq!(parse_range(&ls("Range: bytes=9-3")), None);
    assert_eq!(parse_range(&ls("Range: bytes=a-3")), None);
    assert_eq!(parse_range(&ls("Range: bytes=1-x\nRange: bytes=2-3")), None);
    assert_eq!(parse_range(&ls("Host: x")), None);
}

#[test]
fn range_replies() {
    assert_eq!(
        range_reply(Some((0, Some(99))), 1000),
        RangeReply::Partial { start: 0, end: 99, content_length: 100, file_size: 1000 }
    );
    assert_eq!(
        range_reply(Some((10, None)), 1000),
        RangeReply::Partial { start: 10, end: 999, content_length: 990, file_size: 1000 }
    );
    assert_eq!(
        range_reply(Some((990, Some(5000))), 1000),
        RangeReply::Partial { start: 990, end: 999, content_length: 10, file_size: 1000 }
    );
    assert_eq!(range_reply(Some((1000, None)), 1000), RangeReply::NotSatisfiable);
    assert_eq!(range_reply(Some((0, Some(200 * 1024 * 1024))), u64::MAX), RangeReply::NotSatisfiable);
    assert_eq!(range_reply(Some((0, Some(u64::MAX))), 10), RangeReply::NotSatisfiable);
    assert_eq!(
        range_reply(Some((0, Some(100 * 1024 * 1024 - 1))), 10),
        RangeReply::Partial { start: 0, end: 9, content_length: 10, file_size: 10 }
    );
    assert_eq!(range_reply(Some((0, Some(100 * 1024 * 1024))), 10), RangeReply::NotSatisfiable);
    assert_eq!(range_reply(None, 5), RangeReply::Whole { file_size: 5 });
    assert_eq!(
        reply_header(RangeReply::Partial { start: 0, end: 99, content_length: 100, file_size: 1000 }),
        "HTTP/1.1 206 Partial Content\r\nContent-Type: application/octet-stream\r\nContent-Length: 100\r\nContent-Range: bytes 0-99/1000\r\nAccept-Ranges: bytes\r\n\r\n"
    );
    assert_eq!(
        reply_header(RangeReply::Whole { file_size: 5 }),
        "HTTP/1.1 200 OK\r\nContent-Type: application/octet-stream\r\nContent-Length: 5\r\nAccept-Ranges: bytes\r\n\r\n"
    );
    assert_eq!(
        reply_header(RangeReply::NotSatisfiable),
        "HTTP/1.1 416 Range Not Satisfiable\r\nContent-Range: */\r\nContent-Length: 0\r\n\r\n"
    );
    assert_eq!(not_found_reply(), "HTTP/1.1 404 Not Found\r\nContent-Length: 0\r\n\r\n");
    assert_eq!(serve_plan("/etc/x", "/srv", 10, None), None);
    assert_eq!(serve_plan("/srv/x", "/srv", 10, None), Some(RangeReply::Whole { file_size: 10 }));
}

// --- text --------------------------------------------------------------------

#[test]
fn text_helpers() {
    let parts: Vec<String> = split_char(&chars("a/b//c"), '/').iter().map(|p| text(p)).collect();
    assert_eq!(parts, vec!["a", "b", "", "c"]);
    assert_eq!(text(&first_word(&chars("  hello world"))), "hello");
    assert_eq!(text(&first_word(&chars("   "))), "");
    assert_eq!(text(&trim(&chars(" \t x y \n"))), "x y");
    let ls: Vec<String> = lines(&chars("a\r\nb\n\nc\r")).iter().map(|l| text(l)).collect();
    assert_eq!(ls, "a\r\nb\n\nc\r".lines().collect::<Vec<_>>());
}

// --- history -----------------------------------------------------------------

#[test]
fn history_search_and_removal() {
    let mut h = History::new();
    h.add_entry("https://x.com/a".to_string(), Some("First Clip".to_string()), None, None, None);
    h.add_entry("https://x.com/b".to_string(), None, None, Some(5), None);
    assert_eq!(h.get_recent(1)[0].url, "https://x.com/b");
    assert_eq!(h.get_recent(20).len(), 2);
    assert_eq!(h.search("FIRST").len(), 1);
    assert_eq!(h.search("X.COM").len(), 2);
    let id = h.get_recent(1)[0].id;
    assert!(h.remove_entry(id));
    assert!(!h.remove_entry(id));
    assert_eq!(h.history_count(), 1);
    h.clear();
    assert_eq!(h.history_count(), 0);
}

#[test]
fn duplicate_bookmark_is_refused() {
    let mut h = History::new();
    h.add_bookmark("u".to_string(), None, None).unwrap();
    let err = h.add_bookmark("u".to_string(), Some("t".to_string()), None).unwrap_err();
    assert_eq!(err, HistoryError::DuplicateBookmark);
    assert_eq!(err.message(), "URL 已存在");
    assert_eq!(h.bookmark_count(), 1);
}

// --- window ------------------------------------------------------------------

fn fmt(id: &str, ext: &str, size: Option<u64>, audio: bool) -> VideoFormat {
    VideoFormat {
        format_id: id.to_string(),
        ext: ext.to_string(),
        resolution: Some(format!("{}p", id)),
        filesize: size,
        bitrate: None,
        codec: None,
        audio_only: audio,
        format_note: None,
    }
}

#[test]
fn url_validation() {
    assert_eq!(validate_url("  https://x.com/a/status/1 "), Ok("https://x.com/a/status/1".to_string()));
    assert_eq!(validate_url("   "), Err("URL cannot be empty".to_string()));
    assert_eq!(
        validate_url("https://example.com"),
        Err("Please enter a valid X.com or Twitter.com video link".to_string())
    );
    assert_eq!(validate_url("x.com/a"), Err("URL must start with http:// or https://".to_string()));
    let wrong_host = Err("Please enter a valid X.com or Twitter.com video link".to_string());
    assert_eq!(validate_url("https://example.com/x.com"), wrong_host);
    assert_eq!(validate_url("https://notx.com/a"), wrong_host);
    assert_eq!(validate_url("https://x.com.evil.net/a"), wrong_host);
    assert_eq!(validate_url("https://x.com@evil.net/a"), wrong_host);
    assert_eq!(validate_url("https://mobile.twitter.com/a/status/2"), Ok("https://mobile.twitter.com/a/status/2".to_string()));
    assert_eq!(validate_url("http://x.com:443/a?s=1#t"), Ok("http://x.com:443/a?s=1#t".to_string()));
    assert_eq!(validate_url("https://twitter.com"), Ok("https://twitter.com".to_string()));
    assert_eq!(validate_url("https://a@x.com/v"), Ok("https://a@x.com/v".to_string()));
    assert_eq!(validate_url("https://a:b@c@www.x.com:8443/v"), Ok("https://a:b@c@www.x.com:8443/v".to_string()));
    assert_eq!(validate_url("ftp://x.com/v"), Err("URL must start with http:// or https://".to_string()));
    assert_eq!(validate_url("https://x.com/a?next=http://evil.net"), Ok("https://x.com/a?next=http://evil.net".to_string()));
}

#[test]
fn quality_list_order() {
    let formats = vec![
        fmt("1", "mp4", Some(10), false),
        fmt("2", "m4a", Some(99), true),
        fmt("3", "mp4", Some(30), false),
        fmt("4", "unknown", Some(50), false),
        fmt("5", "mp4", None, false),
        fmt("6", "mp4", Some(30), false),
    ];
    let shown: Vec<String> = display_formats(&formats).iter().map(|f| f.format_id.clone()).collect();
    assert_eq!(shown, vec!["3", "6", "1", "5"]);
    let many: Vec<VideoFormat> = (0..12).map(|i| fmt(&i.to_string(), "mp4", Some(i), false)).collect();
    let shown: Vec<u64> = display_formats(&many).iter().map(|f| f.filesize.unwrap()).collect();
    assert_eq!(shown, vec![7, 6, 5, 4, 3, 2, 1, 0]);
    assert_eq!(format_label(&fmt("720", "mp4", Some(1536), false)), "720p  1.5 KB");
    let mut bare = fmt("1", "mp4", None, false);
    bare.resolution = None;
    assert_eq!(format_label(&bare), "N/A  -");
}

#[test]
fn video_lines_and_formats() {
    let mut info = VideoInfo::new("T".to_string(), "https://x.com/v".to_string());
    info.duration = Some(125);
    info.uploader = Some("me".to_string());
    assert_eq!(duration_line(&info), "2 - 5 @me");
    info.formats = vec![fmt("137", "mp4", None, false), fmt("hls+audio", "mp4", None, false)];
    assert_eq!(final_format(&info.formats, Some(0), "https://x.com/v"), "137+bestaudio");
    assert_eq!(final_format(&info.formats, Some(1), "https://x.com/v"), "hls+audio");
    assert_eq!(final_format(&info.formats, Some(9), "https://x.com/v"), "best");
    assert_eq!(final_format(&info.formats, Some(0), "https://video.twimg.com/v.mp4"), "best");
}

#[test]
fn download_outcomes() {
    assert_eq!(download_outcome(true, "T", b"", b""), Ok("Download completed: T".to_string()));
    assert_eq!(download_outcome(false, "T", b"err", b"out"), Err("err".to_string()));
    assert_eq!(download_outcome(false, "T", b"", b"out"), Err("out".to_string()));
    assert_eq!(download_outcome(false, "T", b"", b""), Err("Unknown error".to_string()));
}

#[test]
fn window_state_machine() {
    let mut app = App::new(String::new(), "/videos".to_string(), YtDlp::new());
    assert_eq!(app.title(), "X Video Downloader");
    assert_eq!(app.output_dir, "/videos");
    assert_eq!(app.status_text(), "Enter video URL");

    assert!(matches!(app.update(Message::FetchInfo), Command::Nothing));
    assert_eq!(app.error_message, Some("URL cannot be empty".to_string()));

    assert!(matches!(app.update(Message::UrlChanged("https://x.com/u/status/1".to_string())), Command::Nothing));
    assert!(matches!(app.update(Message::StartDownload), Command::Nothing));
    assert_eq!(app.error_message, Some("Please get video info first".to_string()));

    match app.update(Message::FetchInfo) {
        Command::FetchInfo { url, cookie_file, .. } => {
            assert_eq!(url, "https://x.com/u/status/1");
            assert_eq!(cookie_file, None);
        }
        _ => panic!("expected a query"),
    }
    assert!(app.is_fetching);
    assert_eq!(app.error_message, None);

    let mut info = VideoInfo::new("My Clip".to_string(), "https://x.com/u/status/1".to_string());
    info.formats = vec![fmt("720", "mp4", Some(100), false)];
    app.update(Message::InfoFetched(Ok(info)));
    assert!(!app.is_fetching);
    assert_eq!(app.selected_format, Some(0));
    assert_eq!(app.status_message, "Fetched: My Clip");

    match app.update(Message::StartDownload) {
        Command::RunDownload { output_dir, executable, args, title } => {
            assert_eq!(output_dir, "/videos");
            assert_eq!(executable, "yt-dlp");
            assert_eq!(title, "My Clip");
            let f = args.iter().position(|a| a == "-f").unwrap();
            assert_eq!(args[f + 1], "720+bestaudio");
            let o = args.iter().position(|a| a == "-o").unwrap();
            assert_eq!(args[o + 1], "/videos/My_Clip.%(ext)s");
            assert_eq!(args.last().unwrap(), "https://x.com/u/status/1");
        }
        _ => panic!("expected a download"),
    }
    assert!(app.is_downloading);
    assert_eq!(app.status_text(), "0%");

    app.update(Message::DownloadCompleted(Err("boom".to_string())));
    assert!(!app.is_downloading);
    assert_eq!(app.status_message, "Download failed");
    assert_eq!(app.error_message, Some("boom".to_string()));
    app.update(Message::ClearError);
    assert_eq!(app.error_message, None);

    app.update(Message::CookieChanged("c.txt".to_string()));
    match app.update(Message::SaveCookie) {
        Command::SaveConfig { cookie_file, output_dir, clearing } => {
            assert_eq!(cookie_file, "c.txt");
            assert_eq!(output_dir, "/videos");
            assert!(!clearing);
        }
        _ => panic!("expected a save"),
    }
    app.config_saved(false, Ok(()));
    assert_eq!(app.status_message, "Cookie saved successfully!");
    match app.update(Message::ClearSavedCookie) {
        Command::SaveConfig { cookie_file, clearing, .. } => {
            assert_eq!(cookie_file, "");
            assert!(clearing);
        }
        _ => panic!("expected a save"),
    }
    assert_eq!(app.cookie_file, "");
    app.config_saved(true, Err("disk full".to_string()));
    assert_eq!(app.error_message, Some("Failed to clear: disk full".to_string()));
    match app.update(Message::BrowseOutputDir) {
        Command::PickFolder { start_dir } => assert_eq!(start_dir, "/videos"),
        _ => panic!("expected a picker"),
    }
    app.update(Message::FolderSelected(None));
    assert_eq!(app.output_dir, "/videos");
    app.update(Message::FolderSelected(Some("/other".to_string())));
    assert_eq!(app.output_dir, "/other");
}

#[test]
fn theme_toggle() {
    let mut mode = ThemeMode::default();
    assert!(is_dark_mode(&mode));
    assert_eq!(current_palette(&mode), Palette::Dark);
    toggle_theme(&mut mode);
    assert!(!is_dark_mode(&mode));
    assert_eq!(current_palette(&mode), Palette::Light);
    toggle_theme(&mut mode);
    assert_eq!(mode, ThemeMode::default());
}

// --- command line ------------------------------------------------------------

fn flags() -> ModeFlags {
    ModeFlags {
        init_config: false,
        gui: false,
        history: false,
        bookmarks: false,
        bookmark: None,
        clear_history: false,
        search: None,
        start_server: false,
        create_team: None,
        join_team: None,
    }
}

#[test]
fn command_line_modes() {
    assert!(matches!(run_mode(&flags()), RunMode::Download));
    let mut f = flags();
    f.search = Some("q".to_string());
    f.start_server = true;
    assert!(matches!(run_mode(&f), RunMode::History));
    assert!(matches!(history_command(&f), HistoryCommand::Search { query } if query == "q"));
    f.bookmark = Some("u".to_string());
    assert!(matches!(history_command(&f),
        HistoryCommand::AddBookmark { url, title } if url == "u" && title == Some("q".to_string())));
    f.clear_history = true;
    assert!(matches!(history_command(&f), HistoryCommand::Clear));
    let mut g = flags();
    g.history = true;
    assert!(matches!(history_command(&g), HistoryCommand::Recent { count: 20 }));
    let mut t = flags();
    t.create_team = Some("Team".to_string());
    t.join_team = Some("CODE".to_string());
    assert!(matches!(run_mode(&t), RunMode::CreateTeam { name } if name == "Team"));
    t.gui = true;
    assert!(matches!(run_mode(&t), RunMode::Gui));
    t.init_config = true;
    assert!(matches!(run_mode(&t), RunMode::InitConfig));
}

#[test]
fn batch_files() {
    let urls = parse_batch_urls("https://x.com/1\n  # comment\n\n  https://x.com/2  \r\n#x\n");
    assert_eq!(urls, vec!["https://x.com/1".to_string(), "https://x.com/2".to_string()]);
    assert!(parse_batch_urls("").is_empty());
}

fn options() -> DownloadOptions {
    DownloadOptions {
        format: None,
        audio_only: false,
        subtitles: false,
        filename: None,
        proxy: None,
        cookies: None,
        user_agent: None,
    }
}

#[test]
fn download_choices() {
    assert_eq!(choose_output_dir(".", "/cfg"), "/cfg");
    assert_eq!(choose_output_dir("./", "/cfg"), "/cfg");
    assert_eq!(choose_output_dir("/out", "/cfg"), "/out");
    let mut o = options();
    assert_eq!(ytdlp_format(&o, "https://x.com/v"), None);
    assert_eq!(ytdlp_format(&o, "https://video.twimg.com/v"), Some("best".to_string()));
    o.audio_only = true;
    assert_eq!(ytdlp_format(&o, "https://video.twimg.com/v"), Some("bestaudio".to_string()));
    o.format = Some("18".to_string());
    assert_eq!(ytdlp_format(&o, "https://x.com/v"), Some("18".to_string()));

    let mut info = VideoInfo::new("a:b".to_string(), "https://x.com/v".to_string());
    info.formats = vec![];
    let mut o = options();
    o.user_agent = Some("UA".to_string());
    o.proxy = Some("http://p".to_string());
    let (yt, args) = ytdlp_job(YtDlp::new(), &info, &o, "/out");
    assert_eq!(yt.anti_bot.user_agent, Some("UA".to_string()));
    let pos = |k: &str| args.iter().position(|a| a == k).unwrap();
    assert_eq!(args[pos("-o") + 1], "/out/a_b.%(ext)s");
    assert_eq!(args[pos("--user-agent") + 1], "UA");
    assert_eq!(args[pos("--proxy") + 1], "http://p");
    assert_eq!(args[pos("-f") + 1], "bestvideo[ext=mp4]+bestaudio[ext=m4a]/best[ext=mp4]/best");

    let req = direct_download_request("https://x.com/v", "/out", &options());
    assert_eq!(req.output_path, "/out/video.mp4");
    assert!(req.user_agent.unwrap().contains("Mozilla/5.0"));
}

#[test]
fn printed_lines() {
    assert_eq!(format_row("id", "mp4", "1280x720", "1.0 MB"), "id         mp4      1280x720        1.0 MB      ");
    assert_eq!(
        format_row("a-very-long-id", "e", "r", "s"),
        format!("{:<10} {:<8} {:<15} {:<12}", "a-very-long-id", "e", "r", "s")
    );
    assert_eq!(size_label(None), "N/A");
    assert_eq!(size_label(Some(2048)), "2.0 KB");
    assert_eq!(entry_label(&None, "u"), "u");
    assert_eq!(entry_label(&Some("t".to_string()), "u"), "t");
}

// --- the byte-size formatter against floating point ---------------------------

fn format_bytes_with_floats(bytes: u64) -> String {
    let units = ["B", "KB", "MB", "GB", "TB"];
    let mut size = bytes as f64;
    let mut unit = 0;
    while size >= 1024.0 && unit < units.len() - 1 {
        size /= 1024.0;
        unit += 1;
    }
    if unit == 0 {
        format!("{} {}", bytes, units[unit])
    } else {
        format!("{:.1} {}", size, units[unit])
    }
}

#[test]
fn format_bytes_matches_floating_point() {
    let mut samples: Vec<u64> = (0..5000).collect();
    for shift in 0..64 {
        let base = 1u64 << shift;
        for d in 0..40u64 {
            samples.push(base.wrapping_add(d));
            samples.push(base.wrapping_sub(d));
            samples.push(base.wrapping_mul(3).wrapping_add(d));
        }
    }
    for k in 1..5u32 {
        let unit = 1024u64.pow(k);
        for t in 0..200u64 {
            let mid = unit / 20 * (2 * t + 1);
            samples.push(mid);
            samples.push(mid.wrapping_add(1));
            samples.push(mid.wrapping_sub(1));
        }
    }
    samples.push(u64::MAX);
    samples.push(u64::MAX - 1);
    let mut x: u64 = 0x9E37_79B9_7F4A_7C15;
    for _ in 0..20000 {
        x ^= x << 13;
        x ^= x >> 7;
        x ^= x << 17;
        samples.push(x >> (x % 64));
    }
    for b in samples {
        assert_eq!(format_bytes(b), format_bytes_with_floats(b), "bytes = {}", b);
    }
}

#[test]
fn session_key_text_is_the_uuid() {
    let (id, text) = new_session_key();
    assert_eq!(text, uuid::Uuid::from_u128(id).to_string());
    let (other, _) = new_session_key();
    assert_ne!(id, other);
}

fn at_secs(secs: i64) -> Timestamp {
    Timestamp { secs, nanos: 0 }
}

fn stored(plan: TaskPlan) -> Task {
    match plan {
        TaskPlan::Store { task, .. } => task,
        _ => panic!("expected a stored task"),
    }
}

#[test]
fn claims_time_out_after_five_quiet_minutes() {
    let team = 7u128;
    let device = 9u128;
    let mut task = Task::new("https://x.com/a/status/1".to_string(), team, 3);
    task.status = TaskStatus::Queued;
    let id = task.id;
    let claimed = stored(plan_claim(&[task], id, device, team, at_secs(1_000)));
    assert_eq!(claimed.progress_at, Some(at_secs(1_000)));
    // Five minutes after the claim, with no report: released.
    assert_eq!(plan_timeouts(&[claimed.duplicate()], at_secs(1_300)), vec![id]);
    assert_eq!(plan_timeouts(&[claimed.duplicate()], at_secs(1_299)), Vec::<u128>::new());
    // A report at 1200 keeps the claim until 1500.
    let half = 0.5f64.to_bits();
    let reported = stored(plan_progress(&[claimed], id, device, team, half, at_secs(1_200)));
    assert_eq!(reported.progress_at, Some(at_secs(1_200)));
    assert_eq!(plan_timeouts(&[reported.duplicate()], at_secs(1_400)), Vec::<u128>::new());
    assert_eq!(plan_timeouts(&[reported], at_secs(1_500)), vec![id]);
}

#[test]
fn token_expiry_near_the_end_of_time() {
    let token = AuthToken::generate_at(1, 2, u64::MAX - 100, DEFAULT_SHARED_SECRET);
    assert_eq!(token.verify_at(u64::MAX, DEFAULT_SHARED_SECRET), Ok(()));
    let early = AuthToken::generate_at(1, 2, 1_000, DEFAULT_SHARED_SECRET);
    assert_eq!(early.verify_at(1_300, DEFAULT_SHARED_SECRET), Ok(()));
    assert_eq!(early.verify_at(1_301, DEFAULT_SHARED_SECRET), Err(AuthError::TokenExpired));
}

#[test]
fn whitespace_matches_the_standard_library() {
    for code in 0u32..=0x10FFFF {
        if let Some(c) = char::from_u32(code) {
            assert_eq!(is_whitespace(c), c.is_whitespace(), "U+{:04X}", code);
        }
    }
}

#[test]
fn retry_steps() {
    assert_eq!(attempt_delay(0, 5, 30), Some(0));
    assert_eq!(attempt_delay(1, 5, 30), Some(1));
    assert_eq!(attempt_delay(4, 5, 30), Some(8));
    assert_eq!(attempt_delay(5, 5, 30), None);
    assert_eq!(attempt_delay(0, 0, 30), None);
    assert_eq!(attempt_delay(10, 20, 30), Some(30));
    assert_eq!(segment_retry_delay(0), 1);
    assert_eq!(segment_retry_delay(3), 8);
    assert_eq!(segment_retry_delay(63), 1u64 << 63);
}

#[test]
fn file_server_listens_on_loopback() {
    assert_eq!(FileServer::new(8081).bind_address(), "127.0.0.1:8081");
}

#[test]
fn window_output_dir_defaults() {
    let fresh = App::with_video_dir(String::new(), String::new(), Some("/home/a/Videos".to_string()), YtDlp::new());
    assert_eq!(fresh.output_dir, "/home/a/Videos");
    let none = App::with_video_dir(String::new(), String::new(), None, YtDlp::new());
    assert_eq!(none.output_dir, "./Downloads");
    let saved = App::with_video_dir("c.txt".to_string(), "/saved".to_string(), None, YtDlp::with_executable("/opt/yt-dlp".to_string()));
    assert_eq!(saved.output_dir, "/saved");
    assert_eq!(saved.cookie_file, "c.txt");
    assert_eq!(saved.ytdlp.executable, "/opt/yt-dlp");
}
