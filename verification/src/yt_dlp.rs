//! Command lines for the `yt-dlp` tool and the reading of its video metadata.
//!
//! The application runs the process and decodes its JSON output into
//! `VideoMetadata`; everything the downloader decides about arguments and
//! formats is here.

use crate::text::{chars_equal, chars_of};
use rand::seq::SliceRandom;
use crate::types::{VideoFormat, VideoInfo};
use vstd::prelude::*;

verus! {

/// Format selection used when none is given: MP4 video with M4A audio,
/// else the best MP4, else the best available.
pub const DEFAULT_FORMAT: &'static str = "bestvideo[ext=mp4]+bestaudio[ext=m4a]/best[ext=mp4]/best";

/// Title used when the metadata has none.
pub const UNKNOWN_TITLE: &'static str = "未知标题";

/// Extension used when a format has none.
pub const UNKNOWN_EXT: &'static str = "unknown";

/// Anti-bot settings passed to yt-dlp.
#[derive(Clone, Debug)]
pub struct AntiBotConfig {
    pub enabled: bool,
    pub user_agent: Option<String>,
    pub cookie_file: Option<String>,
    pub proxy: Option<String>,
    /// Skip TLS certificate checks (off by default; for testing only).
    pub skip_ssl_verify: bool,
}

impl Default for AntiBotConfig {
    fn default() -> (r: AntiBotConfig)
        ensures
            r.enabled,
            r.user_agent is None,
            r.cookie_file is None,
            r.proxy is None,
            !r.skip_ssl_verify,
    {
        AntiBotConfig {
            enabled: true,
            user_agent: None,
            cookie_file: None,
            proxy: None,
            skip_ssl_verify: false,
        }
    }
}

/// The `yt-dlp` executable and the settings it is run with.
#[derive(Clone, Debug)]
pub struct YtDlp {
    pub executable: String,
    pub anti_bot: AntiBotConfig,
}

/// Number of built-in User-Agents chosen from when none is configured.
pub const USER_AGENT_COUNT: usize = 7;

/// The built-in User-Agents.
pub open spec fn builtin_user_agent(i: int) -> Seq<char> {
    if i == 0 {
        "Mozilla/5.0 (Windows NT 10.0; Win64; x64) AppleWebKit/537.36 (KHTML, like Gecko) Chrome/131.0.0.0 Safari/537.36"@
    } else if i == 1 {
        "Mozilla/5.0 (Macintosh; Intel Mac OS X 10_15_7) AppleWebKit/537.36 (KHTML, like Gecko) Chrome/131.0.0.0 Safari/537.36"@
    } else if i == 2 {
        "Mozilla/5.0 (Windows NT 10.0; Win64; x64; rv:133.0) Gecko/20100101 Firefox/133.0"@
    } else if i == 3 {
        "Mozilla/5.0 (Macintosh; Intel Mac OS X 10.15; rv:133.0) Gecko/20100101 Firefox/133.0"@
    } else if i == 4 {
        "Mozilla/5.0 (X11; Linux x86_64) AppleWebKit/537.36 (KHTML, like Gecko) Chrome/131.0.0.0 Safari/537.36"@
    } else if i == 5 {
        "Mozilla/5.0 (Windows NT 10.0; Win64; x64) AppleWebKit/537.36 (KHTML, like Gecko) Chrome/130.0.0.0 Safari/537.36"@
    } else {
        "Mozilla/5.0 (Macintosh; Intel Mac OS X 10_15_7) AppleWebKit/605.1.15 (KHTML, like Gecko) Version/17.0 Safari/605.1.15"@
    }
}

/// The `i`-th built-in User-Agent.
fn builtin_user_agent_text(i: usize) -> (r: &'static str)
    requires
        i < USER_AGENT_COUNT,
    ensures
        r@ == builtin_user_agent(i as int),
{
    if i == 0 {
        "Mozilla/5.0 (Windows NT 10.0; Win64; x64) AppleWebKit/537.36 (KHTML, like Gecko) Chrome/131.0.0.0 Safari/537.36"
    } else if i == 1 {
        "Mozilla/5.0 (Macintosh; Intel Mac OS X 10_15_7) AppleWebKit/537.36 (KHTML, like Gecko) Chrome/131.0.0.0 Safari/537.36"
    } else if i == 2 {
        "Mozilla/5.0 (Windows NT 10.0; Win64; x64; rv:133.0) Gecko/20100101 Firefox/133.0"
    } else if i == 3 {
        "Mozilla/5.0 (Macintosh; Intel Mac OS X 10.15; rv:133.0) Gecko/20100101 Firefox/133.0"
    } else if i == 4 {
        "Mozilla/5.0 (X11; Linux x86_64) AppleWebKit/537.36 (KHTML, like Gecko) Chrome/131.0.0.0 Safari/537.36"
    } else if i == 5 {
        "Mozilla/5.0 (Windows NT 10.0; Win64; x64) AppleWebKit/537.36 (KHTML, like Gecko) Chrome/130.0.0.0 Safari/537.36"
    } else {
        "Mozilla/5.0 (Macintosh; Intel Mac OS X 10_15_7) AppleWebKit/605.1.15 (KHTML, like Gecko) Version/17.0 Safari/605.1.15"
    }
}

/// A uniformly random position below `n`, from `rand::seq::SliceRandom::choose`
/// with `rand::thread_rng()`; `None` when `n` is 0.
///
/// Only the range is claimed: the position comes from a random source.
#[verifier::external_body]
fn random_position(n: usize) -> (r: Option<usize>)
    ensures
        (r is None) == (n == 0),
        match r {
            Some(i) => i < n,
            None => true,
        },
{
    let positions: Vec<usize> = (0..n).collect();
    positions.choose(&mut rand::thread_rng()).copied()
}

/// Whether a file exists at `path` (`std::path::Path::exists`).
///
/// Nothing is claimed of the answer: it depends on the file system.
#[verifier::external_body]
pub(crate) fn path_exists(path: &str) -> (r: bool) {
    std::path::Path::new(path).exists()
}

/// The text of an optional value, or `default`.
pub open spec fn text_or(o: Option<String>, default: Seq<char>) -> Seq<char> {
    match o {
        Some(s) => s@,
        None => default,
    }
}

/// The fixed leading arguments of a download into `output_path`.
pub open spec fn download_base_args(output_path: Seq<char>) -> Seq<Seq<char>> {
    seq![
        "--no-warnings"@,
        "--newline"@,
        "-o"@,
        output_path,
        "--concurrent-fragments"@,
        "4"@,
        "--fragment-retries"@,
        "10"@,
        "--retries"@,
        "10"@,
        "--socket-timeout"@,
        "60"@,
        "--no-abort-on-error"@,
    ]
}

/// `--no-check-certificate` when certificate checks are skipped.
pub open spec fn ssl_args(cfg: AntiBotConfig) -> Seq<Seq<char>> {
    if cfg.skip_ssl_verify {
        seq!["--no-check-certificate"@]
    } else {
        Seq::empty()
    }
}

/// The format selection.
pub open spec fn format_args(format: Option<Seq<char>>) -> Seq<Seq<char>> {
    seq![
        "-f"@,
        match format {
            Some(f) => f,
            None => DEFAULT_FORMAT@,
        },
    ]
}

/// Audio extraction to MP3.
pub open spec fn audio_args(audio_only: bool) -> Seq<Seq<char>> {
    if audio_only {
        seq!["-x"@, "--audio-format"@, "mp3"@]
    } else {
        Seq::empty()
    }
}

/// English and Chinese subtitles.
pub open spec fn subtitle_args(subtitles: bool) -> Seq<Seq<char>> {
    if subtitles {
        seq!["--write-subs"@, "--sub-lang"@, "en,zh-Hans,zh-Hant"@]
    } else {
        Seq::empty()
    }
}

/// The cookie file, when configured and present.
pub open spec fn cookie_args(cfg: AntiBotConfig, cookie_exists: bool) -> Seq<Seq<char>> {
    match cfg.cookie_file {
        Some(c) => if cookie_exists {
            seq!["--cookies"@, c@]
        } else {
            Seq::empty()
        },
        None => Seq::empty(),
    }
}

/// The proxy, when configured.
pub open spec fn proxy_args(cfg: AntiBotConfig) -> Seq<Seq<char>> {
    match cfg.proxy {
        Some(p) => seq!["--proxy"@, p@],
        None => Seq::empty(),
    }
}

/// The arguments of a download, given the User-Agent to send and whether
/// the cookie file exists.
pub open spec fn download_args_spec(
    cfg: AntiBotConfig,
    url: Seq<char>,
    output_path: Seq<char>,
    format: Option<Seq<char>>,
    audio_only: bool,
    subtitles: bool,
    user_agent: Seq<char>,
    cookie_exists: bool,
) -> Seq<Seq<char>> {
    download_base_args(output_path) + ssl_args(cfg) + format_args(format) + audio_args(audio_only)
        + subtitle_args(subtitles) + seq!["--user-agent"@, user_agent] + cookie_args(
        cfg,
        cookie_exists,
    ) + proxy_args(cfg) + seq![url]
}

/// The arguments of a metadata query, given the User-Agent to send and
/// whether the cookie file exists.
pub open spec fn info_args_spec(
    cfg: AntiBotConfig,
    url: Seq<char>,
    user_agent: Seq<char>,
    cookie_exists: bool,
) -> Seq<Seq<char>> {
    seq![
        "--dump-json"@,
        "--no-playlist"@,
        "--retries"@,
        "10"@,
        "--fragment-retries"@,
        "10"@,
        "--retry-sleep"@,
        "5"@,
        "--socket-timeout"@,
        "120"@,
        "--http-chunk-size"@,
        "10M"@,
        url,
    ] + (if cfg.enabled {
        seq!["--user-agent"@, user_agent] + (match cfg.cookie_file {
            Some(c) => if cookie_exists {
                seq!["--cookies"@, c@]
            } else {
                Seq::empty()
            },
            None => Seq::empty(),
        }) + (match cfg.proxy {
            Some(p) => seq!["--proxy"@, p@],
            None => Seq::empty(),
        }) + (if cfg.skip_ssl_verify {
            seq!["--no-check-certificate"@]
        } else {
            Seq::empty()
        })
    } else {
        Seq::empty()
    })
}

/// The text of an optional string slice.
pub open spec fn opt_view(o: Option<&str>) -> Option<Seq<char>> {
    match o {
        Some(f) => Some(f@),
        None => None,
    }
}

/// The texts of a list of strings.
pub open spec fn texts(v: Seq<String>) -> Seq<Seq<char>> {
    v.map_values(|s: String| s@)
}

fn push_arg(args: &mut Vec<String>, a: &str)
    ensures
        texts(final(args)@) == texts(old(args)@).push(a@),
{
    args.push(a.to_owned());
    assert(texts(final(args)@) =~= texts(old(args)@).push(a@));
}

fn push_string(args: &mut Vec<String>, a: String)
    ensures
        texts(final(args)@) == texts(old(args)@).push(a@),
{
    args.push(a);
    assert(texts(final(args)@) =~= texts(old(args)@).push(a@));
}


/// The fixed leading arguments of a download.
fn download_base(output_path: &str) -> (r: Vec<String>)
    ensures
        texts(r@) == download_base_args(output_path@),
{
    let mut args: Vec<String> = Vec::new();
    push_arg(&mut args, "--no-warnings");
    push_arg(&mut args, "--newline");
    push_arg(&mut args, "-o");
    push_arg(&mut args, output_path);
    push_arg(&mut args, "--concurrent-fragments");
    push_arg(&mut args, "4");
    push_arg(&mut args, "--fragment-retries");
    push_arg(&mut args, "10");
    push_arg(&mut args, "--retries");
    push_arg(&mut args, "10");
    push_arg(&mut args, "--socket-timeout");
    push_arg(&mut args, "60");
    push_arg(&mut args, "--no-abort-on-error");
    assert(texts(args@) =~= download_base_args(output_path@));
    args
}

fn push_format(args: &mut Vec<String>, format: Option<&str>)
    ensures
        texts(final(args)@) == texts(old(args)@) + format_args(opt_view(format)),
{
    push_arg(args, "-f");
    match format {
        Some(f) => push_arg(args, f),
        None => push_arg(args, DEFAULT_FORMAT),
    }
    assert(texts(final(args)@) =~= texts(old(args)@) + format_args(opt_view(format)));
}

fn push_audio_and_subtitles(args: &mut Vec<String>, audio_only: bool, subtitles: bool)
    ensures
        texts(final(args)@) == texts(old(args)@) + audio_args(audio_only) + subtitle_args(subtitles),
{
    if audio_only {
        push_arg(args, "-x");
        push_arg(args, "--audio-format");
        push_arg(args, "mp3");
    }
    let ghost mid = texts(args@);
    assert(mid =~= texts(old(args)@) + audio_args(audio_only));
    if subtitles {
        push_arg(args, "--write-subs");
        push_arg(args, "--sub-lang");
        push_arg(args, "en,zh-Hans,zh-Hant");
    }
    assert(texts(final(args)@) =~= mid + subtitle_args(subtitles));
}

fn push_cookie_and_proxy(args: &mut Vec<String>, cfg: &AntiBotConfig, cookie_exists: bool)
    ensures
        texts(final(args)@) == texts(old(args)@) + cookie_args(*cfg, cookie_exists) + proxy_args(*cfg),
{
    match &cfg.cookie_file {
        Some(c) => {
            if cookie_exists {
                push_arg(args, "--cookies");
                push_string(args, c.clone());
            }
        },
        None => {},
    }
    let ghost mid = texts(args@);
    assert(mid =~= texts(old(args)@) + cookie_args(*cfg, cookie_exists));
    match &cfg.proxy {
        Some(p) => {
            push_arg(args, "--proxy");
            push_string(args, p.clone());
        },
        None => {},
    }
    assert(texts(final(args)@) =~= mid + proxy_args(*cfg));
}

/// The optional text as a `&str`.
fn opt_str(o: &Option<String>) -> (r: Option<&str>)
    ensures
        match o {
            Some(s) => r matches Some(t) && t@ == s@,
            None => r is None,
        },
{
    match o {
        Some(s) => Some(s.as_str()),
        None => None,
    }
}

impl YtDlp {
    /// The tool found on the search path (`yt-dlp`), with default settings.
    pub fn new() -> (r: YtDlp)
        ensures
            r.executable@ == "yt-dlp"@,
            r.anti_bot.enabled,
            r.anti_bot.user_agent is None,
            r.anti_bot.cookie_file is None,
            r.anti_bot.proxy is None,
            !r.anti_bot.skip_ssl_verify,
    {
        YtDlp { executable: "yt-dlp".to_owned(), anti_bot: AntiBotConfig::default() }
    }

    /// The tool at `executable`, with default settings.
    pub fn with_executable(executable: String) -> (r: YtDlp)
        ensures
            r.executable == executable,
            r.anti_bot.enabled,
            r.anti_bot.user_agent is None,
            r.anti_bot.cookie_file is None,
            r.anti_bot.proxy is None,
            !r.anti_bot.skip_ssl_verify,
    {
        YtDlp { executable, anti_bot: AntiBotConfig::default() }
    }

    /// The anti-bot settings.
    pub fn anti_bot(&self) -> (r: &AntiBotConfig)
        ensures
            *r == self.anti_bot,
    {
        &self.anti_bot
    }

    /// The same tool with a fixed User-Agent.
    pub fn with_user_agent(self, user_agent: String) -> (r: YtDlp)
        ensures
            r.executable == self.executable,
            r.anti_bot == (AntiBotConfig { user_agent: Some(user_agent), ..self.anti_bot }),
    {
        let mut s = self;
        s.anti_bot.user_agent = Some(user_agent);
        s
    }

    /// The same tool with a cookie file.
    pub fn with_cookie_file(self, cookie_file: String) -> (r: YtDlp)
        ensures
            r.executable == self.executable,
            r.anti_bot == (AntiBotConfig { cookie_file: Some(cookie_file), ..self.anti_bot }),
    {
        let mut s = self;
        s.anti_bot.cookie_file = Some(cookie_file);
        s
    }

    /// The same tool behind a proxy.
    pub fn with_proxy(self, proxy: String) -> (r: YtDlp)
        ensures
            r.executable == self.executable,
            r.anti_bot == (AntiBotConfig { proxy: Some(proxy), ..self.anti_bot }),
    {
        let mut s = self;
        s.anti_bot.proxy = Some(proxy);
        s
    }

    /// The User-Agent to send: the configured one, else one of the built-in
    /// ones chosen at random.
    pub fn get_user_agent(&self) -> (r: String)
        ensures
            match self.anti_bot.user_agent {
                Some(ua) => r@ == ua@,
                None => exists|i: int| 0 <= i < USER_AGENT_COUNT && r@ == builtin_user_agent(i),
            },
    {
        match &self.anti_bot.user_agent {
            Some(ua) => ua.clone(),
            None => {
                let i = match random_position(USER_AGENT_COUNT) {
                    Some(i) => i,
                    None => 0,
                };
                builtin_user_agent_text(i).to_owned()
            },
        }
    }

    /// The download arguments, sending `user_agent` and passing the cookie
    /// file only when `cookie_exists`.
    pub fn build_download_args_with(
        &self,
        url: &str,
        output_path: &str,
        format: Option<&str>,
        audio_only: bool,
        subtitles: bool,
        user_agent: String,
        cookie_exists: bool,
    ) -> (r: Vec<String>)
        ensures
            texts(r@) == download_args_spec(
                self.anti_bot,
                url@,
                output_path@,
                match format {
                    Some(f) => Some(f@),
                    None => None,
                },
                audio_only,
                subtitles,
                user_agent@,
                cookie_exists,
            ),
    {
        let mut args = download_base(output_path);
        if self.anti_bot.skip_ssl_verify {
            push_arg(&mut args, "--no-check-certificate");
        }
        let ghost s1 = download_base_args(output_path@) + ssl_args(self.anti_bot);
        assert(texts(args@) =~= s1);
        push_format(&mut args, format);
        push_audio_and_subtitles(&mut args, audio_only, subtitles);
        push_arg(&mut args, "--user-agent");
        push_string(&mut args, user_agent);
        push_cookie_and_proxy(&mut args, &self.anti_bot, cookie_exists);
        push_arg(&mut args, url);
        args
    }

    /// The download arguments for yt-dlp: output template, retries,
    /// format (the default selection when none is given), audio and
    /// subtitle options, User-Agent, cookie file (when it exists), proxy and
    /// finally the URL.
    pub fn build_download_args(
        &self,
        url: &str,
        output_path: &str,
        format: Option<&str>,
        audio_only: bool,
        subtitles: bool,
    ) -> (r: Vec<String>)
        ensures
            exists|ua: Seq<char>, cookie_exists: bool|
                texts(r@) == #[trigger] download_args_spec(
                    self.anti_bot,
                    url@,
                    output_path@,
                    opt_view(format),
                    audio_only,
                    subtitles,
                    ua,
                    cookie_exists,
                ) && match self.anti_bot.user_agent {
                    Some(u) => ua == u@,
                    None => exists|i: int| 0 <= i < USER_AGENT_COUNT && ua == builtin_user_agent(i),
                },
    {
        let ua = self.get_user_agent();
        let ghost ua_text = ua@;
        let cookie_exists = match opt_str(&self.anti_bot.cookie_file) {
            Some(c) => path_exists(c),
            None => false,
        };
        self.build_download_args_with(url, output_path, format, audio_only, subtitles, ua, cookie_exists)
    }

    /// The metadata-query arguments, sending `user_agent` and passing the
    /// cookie file only when `cookie_exists`.
    pub fn info_args_with(&self, url: &str, user_agent: String, cookie_exists: bool) -> (r: Vec<String>)
        ensures
            texts(r@) == info_args_spec(self.anti_bot, url@, user_agent@, cookie_exists),
    {
        let mut args: Vec<String> = Vec::new();
        push_arg(&mut args, "--dump-json");
        push_arg(&mut args, "--no-playlist");
        push_arg(&mut args, "--retries");
        push_arg(&mut args, "10");
        push_arg(&mut args, "--fragment-retries");
        push_arg(&mut args, "10");
        push_arg(&mut args, "--retry-sleep");
        push_arg(&mut args, "5");
        push_arg(&mut args, "--socket-timeout");
        push_arg(&mut args, "120");
        push_arg(&mut args, "--http-chunk-size");
        push_arg(&mut args, "10M");
        push_arg(&mut args, url);
        let ghost base = texts(args@);
        if self.anti_bot.enabled {
            push_arg(&mut args, "--user-agent");
            push_string(&mut args, user_agent);
            match &self.anti_bot.cookie_file {
                Some(c) => {
                    if cookie_exists {
                        push_arg(&mut args, "--cookies");
                        push_string(&mut args, c.clone());
                    }
                },
                None => {},
            }
            match &self.anti_bot.proxy {
                Some(p) => {
                    push_arg(&mut args, "--proxy");
                    push_string(&mut args, p.clone());
                },
                None => {},
            }
            if self.anti_bot.skip_ssl_verify {
                push_arg(&mut args, "--no-check-certificate");
            }
        }
        assert(texts(args@) =~= info_args_spec(self.anti_bot, url@, user_agent@, cookie_exists));
        args
    }

    /// The arguments for reading a video's metadata as JSON: one video, ten
    /// retries, long timeouts and, when anti-bot settings are on, the
    /// User-Agent, cookie file (when it exists), proxy and certificate option.
    pub fn info_args(&self, url: &str) -> (r: Vec<String>)
        ensures
            exists|ua: Seq<char>, cookie_exists: bool|
                texts(r@) == #[trigger] info_args_spec(self.anti_bot, url@, ua, cookie_exists) && match self.anti_bot.user_agent {
                    Some(u) => ua == u@,
                    None => exists|i: int| 0 <= i < USER_AGENT_COUNT && ua == builtin_user_agent(i),
                },
    {
        let ua = if self.anti_bot.enabled {
            self.get_user_agent()
        } else {
            String::new()
        };
        let cookie_exists = match opt_str(&self.anti_bot.cookie_file) {
            Some(c) => self.anti_bot.enabled && path_exists(c),
            None => false,
        };
        let r = self.info_args_with(url, ua, cookie_exists);
        proof {
            if !self.anti_bot.enabled {
                if self.anti_bot.user_agent is Some {
                    let u = self.anti_bot.user_agent->0;
                    assert(info_args_spec(self.anti_bot, url@, ua@, cookie_exists) == info_args_spec(self.anti_bot, url@, u@, cookie_exists));
                } else {
                    assert(info_args_spec(self.anti_bot, url@, ua@, cookie_exists) == info_args_spec(self.anti_bot, url@, builtin_user_agent(0), cookie_exists));
                }
            }
        }
        r
    }
}

impl Default for YtDlp {
    fn default() -> (r: YtDlp)
        ensures
            r.executable@ == "yt-dlp"@,
            r.anti_bot.enabled,
    {
        YtDlp::new()
    }
}

/// One format entry of yt-dlp's JSON, each field as found (`None` where the
/// field is missing or of another JSON type).
#[derive(Clone, Debug)]
pub struct FormatMetadata {
    pub format_id: Option<String>,
    pub ext: Option<String>,
    pub resolution: Option<String>,
    pub filesize: Option<u64>,
    pub filesize_approx: Option<u64>,
    pub tbr: Option<u64>,
    pub vcodec: Option<String>,
    pub format_note: Option<String>,
}

/// The fields of yt-dlp's JSON that the downloader reads.
#[derive(Clone, Debug)]
pub struct VideoMetadata {
    pub title: Option<String>,
    pub description: Option<String>,
    pub uploader: Option<String>,
    pub duration: Option<u64>,
    pub thumbnail: Option<String>,
    /// `None` when `formats` is not an array.
    pub formats: Option<Vec<FormatMetadata>>,
}

/// Whether a format with this extension and video codec carries audio only.
pub open spec fn audio_only_spec(ext: Seq<char>, vcodec: Option<String>) -> bool {
    ext == "m4a"@ || ext == "mp3"@ || ext == "webm"@ || match vcodec {
        Some(v) => v@ == "none"@,
        None => false,
    }
}

/// The entries that become formats: those with a format id, in order.
pub open spec fn formats_kept(fs: Seq<FormatMetadata>) -> Seq<FormatMetadata>
    decreases fs.len(),
{
    if fs.len() == 0 {
        Seq::empty()
    } else if fs.last().format_id is Some {
        formats_kept(fs.drop_last()).push(fs.last())
    } else {
        formats_kept(fs.drop_last())
    }
}

/// How a format entry with a format id is read.
pub open spec fn format_matches(v: VideoFormat, f: FormatMetadata) -> bool {
    &&& f.format_id matches Some(id) && v.format_id == id
    &&& v.ext@ == text_or(f.ext, UNKNOWN_EXT@)
    &&& v.resolution == f.resolution
    &&& v.filesize == (match f.filesize {
        Some(s) => Some(s),
        None => f.filesize_approx,
    })
    &&& v.bitrate == f.tbr
    &&& v.codec is None
    &&& v.audio_only == audio_only_spec(text_or(f.ext, UNKNOWN_EXT@), f.vcodec)
    &&& v.format_note == f.format_note
}

fn is_audio_only(ext: &str, vcodec: &Option<String>) -> (r: bool)
    ensures
        r == audio_only_spec(ext@, *vcodec),
{
    let e = chars_of(ext);
    let audio_ext = chars_equal(e.as_slice(), chars_of("m4a").as_slice()) || chars_equal(
        e.as_slice(),
        chars_of("mp3").as_slice(),
    ) || chars_equal(e.as_slice(), chars_of("webm").as_slice());
    let none_codec = match vcodec {
        Some(v) => chars_equal(chars_of(v.as_str()).as_slice(), chars_of("none").as_slice()),
        None => false,
    };
    audio_ext || none_codec
}

fn format_from(f: &FormatMetadata, id: &String) -> (r: VideoFormat)
    requires
        f.format_id == Some(*id),
    ensures
        format_matches(r, *f),
{
    let ext: String = match &f.ext {
        Some(e) => e.clone(),
        None => UNKNOWN_EXT.to_owned(),
    };
    let audio_only = is_audio_only(ext.as_str(), &f.vcodec);
    VideoFormat {
        format_id: id.clone(),
        ext,
        resolution: crate::collaboration::types::copy_opt_string(&f.resolution),
        filesize: match f.filesize {
            Some(s) => Some(s),
            None => f.filesize_approx,
        },
        bitrate: f.tbr,
        codec: None,
        audio_only,
        format_note: crate::collaboration::types::copy_opt_string(&f.format_note),
    }
}

/// The video record made from yt-dlp's metadata for `url`: the title
/// (`未知标题` when missing), description, uploader, duration and thumbnail
/// as found, and one format for each entry that has a format id.
pub fn video_info_from_metadata(meta: &VideoMetadata, url: &str) -> (r: VideoInfo)
    ensures
        r.title@ == text_or(meta.title, UNKNOWN_TITLE@),
        r.url@ == url@,
        r.description == meta.description,
        r.uploader == meta.uploader,
        r.duration == meta.duration,
        r.thumbnail == meta.thumbnail,
        r.created_at is Some,
        match meta.formats {
            None => r.formats@.len() == 0,
            Some(fs) => r.formats@.len() == formats_kept(fs@).len() && forall|i: int|
                0 <= i < r.formats@.len() ==> format_matches(
                    #[trigger] r.formats@[i],
                    formats_kept(fs@)[i],
                ),
        },
{
    let title = match &meta.title {
        Some(t) => t.clone(),
        None => UNKNOWN_TITLE.to_owned(),
    };
    let mut info = VideoInfo::new(title, url.to_owned());
    info.description = crate::collaboration::types::copy_opt_string(&meta.description);
    info.uploader = crate::collaboration::types::copy_opt_string(&meta.uploader);
    info.duration = meta.duration;
    info.thumbnail = crate::collaboration::types::copy_opt_string(&meta.thumbnail);
    match &meta.formats {
        None => {},
        Some(fs) => {
            let mut out: Vec<VideoFormat> = Vec::new();
            let mut i: usize = 0;
            assert(fs@.subrange(0, 0) =~= Seq::<FormatMetadata>::empty());
            while i < fs.len()
                invariant
                    i <= fs.len(),
                    out@.len() == formats_kept(fs@.subrange(0, i as int)).len(),
                    forall|j: int|
                        0 <= j < out@.len() ==> format_matches(
                            #[trigger] out@[j],
                            formats_kept(fs@.subrange(0, i as int))[j],
                        ),
                decreases fs.len() - i,
            {
                let ghost before = fs@.subrange(0, i as int);
                assert(fs@.subrange(0, i + 1).drop_last() =~= before);
                assert(fs@.subrange(0, i + 1).last() == fs@[i as int]);
                let f = &fs[i];
                match &f.format_id {
                    Some(id) => {
                        let v = format_from(f, id);
                        out.push(v);
                    },
                    None => {},
                }
                i = i + 1;
            }
            assert(fs@.subrange(0, fs@.len() as int) =~= fs@);
            info.formats = out;
        },
    }
    info
}


/// Asking for audio only adds exactly `-x --audio-format mp3` right after the
/// format selection `-f <format>` and changes nothing else: the arguments of
/// an audio-only download are those of the same download without it, with
/// these three inserted.
pub proof fn lemma_audio_only_extracts_mp3(
    cfg: AntiBotConfig,
    url: Seq<char>,
    output_path: Seq<char>,
    format: Option<Seq<char>>,
    subtitles: bool,
    user_agent: Seq<char>,
    cookie_exists: bool,
) -> (k: int)
    ensures
        ({
            let with_audio = download_args_spec(cfg, url, output_path, format, true, subtitles, user_agent, cookie_exists);
            let without = download_args_spec(cfg, url, output_path, format, false, subtitles, user_agent, cookie_exists);
            &&& 2 <= k <= without.len()
            &&& with_audio.len() == without.len() + 3
            &&& with_audio[k - 2] == "-f"@
            &&& with_audio[k - 1] == (match format {
                Some(f) => f,
                None => DEFAULT_FORMAT@,
            })
            &&& with_audio[k] == "-x"@
            &&& with_audio[k + 1] == "--audio-format"@
            &&& with_audio[k + 2] == "mp3"@
            &&& with_audio.subrange(0, k) == without.subrange(0, k)
            &&& with_audio.subrange(k + 3, with_audio.len() as int) == without.subrange(k, without.len() as int)
        }),
{
    let head = download_base_args(output_path) + ssl_args(cfg) + format_args(format);
    let tail = subtitle_args(subtitles) + seq!["--user-agent"@, user_agent] + cookie_args(cfg, cookie_exists)
        + proxy_args(cfg) + seq![url];
    let with_audio = download_args_spec(cfg, url, output_path, format, true, subtitles, user_agent, cookie_exists);
    let without = download_args_spec(cfg, url, output_path, format, false, subtitles, user_agent, cookie_exists);
    assert(with_audio =~= head + seq!["-x"@, "--audio-format"@, "mp3"@] + tail);
    assert(without =~= head + tail);
    let k = head.len() as int;
    assert(with_audio.subrange(0, k) =~= head);
    assert(without.subrange(0, k) =~= head);
    assert(with_audio.subrange(k + 3, with_audio.len() as int) =~= tail);
    assert(without.subrange(k, without.len() as int) =~= tail);
    assert(head[k - 2] == "-f"@);
    k
}

/// A format whose video codec is `none` is read as audio only, whatever its
/// extension; so are the audio extensions `m4a`, `mp3` and `webm`.
pub proof fn lemma_audio_formats_recognised(ext: Seq<char>, vcodec: Option<String>)
    ensures
        (vcodec matches Some(v) && v@ == "none"@) ==> audio_only_spec(ext, vcodec),
        (ext == "m4a"@ || ext == "mp3"@ || ext == "webm"@) ==> audio_only_spec(ext, vcodec),
{
}

} // verus!
