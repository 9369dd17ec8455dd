//! Application settings and their defaults.
//!
//! Reading and writing the TOML file is left to the application; the
//! defaults and the file's location are decided here.

use vstd::prelude::*;

verus! {

/// Application settings.
#[derive(Clone, Debug)]
pub struct AppConfig {
    pub output_dir: String,
    pub proxy: Option<String>,
    pub user_agent: String,
    pub cookie_file: Option<String>,
    pub format: Option<String>,
    pub subtitles: bool,
    pub audio_only: bool,
    pub concurrent_downloads: usize,
    pub max_retries: u32,
    pub server_addr: String,
    pub device_name: String,
    pub log_level: String,
}

/// The user's video directory (`directories::UserDirs::video_dir`), as text.
///
/// Nothing is claimed of the answer: it depends on the platform and the
/// user's environment.
#[verifier::external_body]
pub(crate) fn user_video_dir() -> (r: Option<String>) {
    directories::UserDirs::new().and_then(|d| d.video_dir().map(|p| p.to_string_lossy().to_string()))
}

/// The configuration directory of a project (`directories::ProjectDirs::from`
/// then `config_dir`), as text.
///
/// Nothing is claimed of the answer: it depends on the platform and the
/// user's environment.
#[verifier::external_body]
fn project_config_dir(qualifier: &str, organization: &str, application: &str) -> (r: Option<String>) {
    directories::ProjectDirs::from(qualifier, organization, application).map(
        |p| p.config_dir().to_string_lossy().to_string(),
    )
}

/// `base` joined with `name` (`std::path::Path::join`).
pub uninterp spec fn path_joined(base: Seq<char>, name: Seq<char>) -> Seq<char>;

/// `Path::new(base).join(name)`, as text.
///
/// The contract names the result; the platform's separator rules are left
/// to that name.
#[verifier::external_body]
pub(crate) fn join_path(base: &str, name: &str) -> (r: String)
    ensures
        r@ == path_joined(base@, name@),
{
    std::path::Path::new(base).join(name).to_string_lossy().to_string()
}

/// The output directory chosen from the user's video directory `video_dir`:
/// that directory where there is one, else `.`.
pub fn output_dir_from(video_dir: Option<String>) -> (r: String)
    ensures
        r@ == (match video_dir {
            Some(d) => d@,
            None => "."@,
        }),
{
    match video_dir {
        Some(d) => d,
        None => ".".to_owned(),
    }
}

/// The default output directory: the user's video directory, else `.`
/// (see `output_dir_from`; which directory the platform reports is not
/// known here).
pub fn default_output_dir() -> (r: String) {
    output_dir_from(user_video_dir())
}

/// The default User-Agent of the settings file.
pub fn default_user_agent() -> (r: String)
    ensures
        r@ == "Mozilla/5.0 (Windows NT 10.0; Win64; x64) AppleWebKit/537.36 (KHTML, like Gecko) Chrome/120.0.0.0 Safari/537.36"@,
{
    "Mozilla/5.0 (Windows NT 10.0; Win64; x64) AppleWebKit/537.36 (KHTML, like Gecko) Chrome/120.0.0.0 Safari/537.36".to_owned()
}

/// Three downloads at a time.
pub fn default_concurrent_downloads() -> (r: usize)
    ensures
        r == 3,
{
    3
}

/// Five retries.
pub fn default_max_retries() -> (r: u32)
    ensures
        r == 5,
{
    5
}

/// The local collaboration server.
pub fn default_server_addr() -> (r: String)
    ensures
        r@ == "ws://localhost:9000"@,
{
    "ws://localhost:9000".to_owned()
}

/// The default device name.
pub fn default_device_name() -> (r: String)
    ensures
        r@ == "MyDevice"@,
{
    "MyDevice".to_owned()
}

/// Informational logging.
pub fn default_log_level() -> (r: String)
    ensures
        r@ == "info"@,
{
    "info".to_owned()
}

impl Default for AppConfig {
    fn default() -> (r: AppConfig)
        ensures
            r.proxy is None,
            r.user_agent@ == "Mozilla/5.0 (Windows NT 10.0; Win64; x64) AppleWebKit/537.36 (KHTML, like Gecko) Chrome/120.0.0.0 Safari/537.36"@,
            r.cookie_file is None,
            r.format is None,
            !r.subtitles,
            !r.audio_only,
            r.concurrent_downloads == 3,
            r.max_retries == 5,
            r.server_addr@ == "ws://localhost:9000"@,
            r.device_name@ == "MyDevice"@,
            r.log_level@ == "info"@,
    {
        AppConfig {
            output_dir: default_output_dir(),
            proxy: None,
            user_agent: default_user_agent(),
            cookie_file: None,
            format: None,
            subtitles: false,
            audio_only: false,
            concurrent_downloads: default_concurrent_downloads(),
            max_retries: default_max_retries(),
            server_addr: default_server_addr(),
            device_name: default_device_name(),
            log_level: default_log_level(),
        }
    }
}

impl AppConfig {
    /// Where the settings file lives: `config.toml` in the project's
    /// configuration directory, when the platform has one.
    pub fn config_path() -> (r: Option<String>)
        ensures
            r matches Some(p) ==> exists|dir: Seq<char>| p@ == path_joined(dir, "config.toml"@),
    {
        let (qualifier, organization, application) = AppConfig::config_project();
        AppConfig::config_path_in(project_config_dir(qualifier, organization, application))
    }

    /// The project identity whose configuration directory holds the
    /// settings: qualifier `com`, organization and application
    /// `x-video-downloader`.
    pub fn config_project() -> (r: (&'static str, &'static str, &'static str))
        ensures
            r.0@ == "com"@,
            r.1@ == "x-video-downloader"@,
            r.2@ == "x-video-downloader"@,
    {
        ("com", "x-video-downloader", "x-video-downloader")
    }

    /// The settings file for the configuration directory `config_dir` that
    /// the platform reported: `config.toml` inside it, and none without one.
    pub fn config_path_in(config_dir: Option<String>) -> (r: Option<String>)
        ensures
            match config_dir {
                Some(dir) => r matches Some(p) && p@ == path_joined(dir@, "config.toml"@),
                None => r is None,
            },
    {
        match config_dir {
            Some(dir) => Some(join_path(dir.as_str(), "config.toml")),
            None => None,
        }
    }
}

} // verus!
