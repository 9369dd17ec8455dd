//! The decisions of the command-line program: which mode a command line
//! selects, the URLs of a batch file, where and under which name a video is
//! saved, the yt-dlp arguments of a download, and the lines it prints.
//!
//! Parsing the arguments, touching the disk and running processes belong to
//! the application.

use crate::config::{join_path, path_joined};
use crate::text::{
    append, chars_of, lines, lines_spec, string_of, trim, trim_spec, views,
};
use crate::types::{
    format_bytes, format_bytes_spec, sanitize_filename, sanitize_filename_spec, DownloadRequest,
    VideoInfo, DEFAULT_USER_AGENT,
};
use crate::yt_dlp::{builtin_user_agent, download_args_spec, opt_view, texts, AntiBotConfig, YtDlp, USER_AGENT_COUNT};
use vstd::prelude::*;

verus! {

/// History entries listed by `--history`.
pub const RECENT_HISTORY_COUNT: usize = 20;

/// What a command line asks for, in the order the program checks the
/// flags.
#[derive(Clone, Debug)]
pub enum RunMode {
    /// `--init-config`: write the settings file.
    InitConfig,
    /// `--gui`: open the window.
    Gui,
    /// One of the history and bookmark flags.
    History,
    /// `--start-server`: run the collaboration server.
    Server,
    /// `--create-team NAME`.
    CreateTeam { name: String },
    /// `--join-team CODE`.
    JoinTeam { invite_code: String },
    /// Download the given URLs.
    Download,
}

/// The flags that select a mode.
#[derive(Clone, Debug)]
pub struct ModeFlags {
    pub init_config: bool,
    pub gui: bool,
    pub history: bool,
    pub bookmarks: bool,
    pub bookmark: Option<String>,
    pub clear_history: bool,
    pub search: Option<String>,
    pub start_server: bool,
    pub create_team: Option<String>,
    pub join_team: Option<String>,
}

/// Whether the flags ask for a history or bookmark command.
pub open spec fn wants_history(f: ModeFlags) -> bool {
    f.history || f.bookmarks || f.bookmark is Some || f.clear_history || f.search is Some
}

/// The mode selected by the flags.
pub fn run_mode(flags: &ModeFlags) -> (r: RunMode)
    ensures
        flags.init_config ==> r is InitConfig,
        !flags.init_config && flags.gui ==> r is Gui,
        !flags.init_config && !flags.gui && wants_history(*flags) ==> r is History,
        !flags.init_config && !flags.gui && !wants_history(*flags) && flags.start_server ==> r is Server,
        !flags.init_config && !flags.gui && !wants_history(*flags) && !flags.start_server ==> match flags.create_team {
            Some(n) => r matches RunMode::CreateTeam { name } && name@ == n@,
            None => match flags.join_team {
                Some(c) => r matches RunMode::JoinTeam { invite_code } && invite_code@ == c@,
                None => r is Download,
            },
        },
{
    if flags.init_config {
        RunMode::InitConfig
    } else if flags.gui {
        RunMode::Gui
    } else if flags.history || flags.bookmarks || flags.bookmark.is_some() || flags.clear_history
        || flags.search.is_some() {
        RunMode::History
    } else if flags.start_server {
        RunMode::Server
    } else {
        match &flags.create_team {
            Some(n) => RunMode::CreateTeam { name: string_of(chars_of(n.as_str()).as_slice()) },
            None => match &flags.join_team {
                Some(c) => RunMode::JoinTeam { invite_code: string_of(chars_of(c.as_str()).as_slice()) },
                None => RunMode::Download,
            },
        }
    }
}

/// A history or bookmark command.
#[derive(Clone, Debug)]
pub enum HistoryCommand {
    /// `--clear-history`.
    Clear,
    /// `--bookmark URL`, titled with the `--search` text when given.
    AddBookmark { url: String, title: Option<String> },
    /// `--bookmarks`.
    ListBookmarks,
    /// `--search QUERY`.
    Search { query: String },
    /// `--history`: the 20 most recent entries.
    Recent { count: usize },
}

/// The history command the flags ask for, checked in this order: clear,
/// bookmark, list bookmarks, search, recent history.
pub fn history_command(flags: &ModeFlags) -> (r: HistoryCommand)
    ensures
        flags.clear_history ==> r is Clear,
        !flags.clear_history ==> match flags.bookmark {
            Some(u) => r matches HistoryCommand::AddBookmark { url, title } && url@ == u@ && title
                == flags.search,
            None => if flags.bookmarks {
                r is ListBookmarks
            } else {
                match flags.search {
                    Some(q) => r matches HistoryCommand::Search { query } && query@ == q@,
                    None => r == (HistoryCommand::Recent { count: RECENT_HISTORY_COUNT }),
                }
            },
        },
{
    if flags.clear_history {
        return HistoryCommand::Clear;
    }
    match &flags.bookmark {
        Some(u) => HistoryCommand::AddBookmark {
            url: string_of(chars_of(u.as_str()).as_slice()),
            title: copy_opt(&flags.search),
        },
        None => if flags.bookmarks {
            HistoryCommand::ListBookmarks
        } else {
            match &flags.search {
                Some(q) => HistoryCommand::Search { query: string_of(chars_of(q.as_str()).as_slice()) },
                None => HistoryCommand::Recent { count: RECENT_HISTORY_COUNT },
            }
        },
    }
}

fn copy_opt(s: &Option<String>) -> (r: Option<String>)
    ensures
        r == *s,
{
    match s {
        Some(t) => Some(t.clone()),
        None => None,
    }
}

// ---------------------------------------------------------------------------
// Batch files
// ---------------------------------------------------------------------------

/// A line of a batch file that names a URL: not empty and not a comment.
pub open spec fn is_url_line(l: Seq<char>) -> bool {
    l.len() > 0 && l[0] != '#'
}

/// The URLs of a batch file: its lines, trimmed, without empty lines and
/// lines starting with `#`.
pub open spec fn batch_urls_spec(content: Seq<char>) -> Seq<Seq<char>> {
    lines_spec(content).map_values(|l: Seq<char>| trim_spec(l)).filter(|l: Seq<char>| is_url_line(l))
}

/// The URLs of a batch file (see `batch_urls_spec`).
pub fn parse_batch_urls(content: &str) -> (r: Vec<String>)
    ensures
        texts(r@) == batch_urls_spec(content@),
{
    let ls = lines(chars_of(content).as_slice());
    let ghost all = lines_spec(content@).map_values(|l: Seq<char>| trim_spec(l));
    let ghost pred = |l: Seq<char>| is_url_line(l);
    let mut r: Vec<String> = Vec::new();
    let mut i: usize = 0;
    while i < ls.len()
        invariant
            i <= ls@.len(),
            views(ls@) == lines_spec(content@),
            all == lines_spec(content@).map_values(|l: Seq<char>| trim_spec(l)),
            all.len() == ls@.len(),
            pred == (|l: Seq<char>| is_url_line(l)),
            texts(r@) == all.subrange(0, i as int).filter(pred),
        decreases ls@.len() - i,
    {
        let t = trim(ls[i].as_slice());
        let keep = t.len() > 0 && t[0] != '#';
        proof {
            reveal(Seq::filter);
            assert(views(ls@)[i as int] == ls@[i as int]@);
            assert(all[i as int] == t@);
            let s = all.subrange(0, i + 1);
            assert(s.drop_last() =~= all.subrange(0, i as int));
            assert(s.last() == t@);
            assert(pred(t@) == keep);
        }
        let ghost before = r@;
        if keep {
            r.push(string_of(t.as_slice()));
            assert(texts(r@) =~= texts(before).push(t@));
        }
        i = i + 1;
    }
    assert(all.subrange(0, i as int) =~= all);
    r
}

// ---------------------------------------------------------------------------
// Where and how a video is downloaded
// ---------------------------------------------------------------------------

/// What `Path::new(a) == Path::new(b)` answers (paths compared by their
/// components).
pub uninterp spec fn same_path(a: Seq<char>, b: Seq<char>) -> bool;

/// `std::path::Path`'s `==`.
///
/// The contract names the answer and claims what `PartialEq` documents for
/// any type: a path equals itself.
#[verifier::external_body]
fn paths_equal(a: &str, b: &str) -> (r: bool)
    ensures
        r == same_path(a@, b@),
        a@ == b@ ==> r,
{
    std::path::Path::new(a) == std::path::Path::new(b)
}

/// The output directory: the one given on the command line, or the
/// configured (else default) one where the command line kept `.`.
pub fn choose_output_dir(cli_output: &str, fallback: &str) -> (r: String)
    ensures
        same_path(cli_output@, "."@) ==> r@ == fallback@,
        !same_path(cli_output@, "."@) ==> r@ == cli_output@,
{
    if paths_equal(cli_output, ".") {
        string_of(chars_of(fallback).as_slice())
    } else {
        string_of(chars_of(cli_output).as_slice())
    }
}

/// The download options of the command line.
#[derive(Clone, Debug)]
pub struct DownloadOptions {
    pub format: Option<String>,
    pub audio_only: bool,
    pub subtitles: bool,
    pub filename: Option<String>,
    pub proxy: Option<String>,
    pub cookies: Option<String>,
    pub user_agent: Option<String>,
}

/// The tool with the command line's User-Agent, cookie file and proxy.
pub open spec fn configured_anti_bot(cfg: AntiBotConfig, opts: DownloadOptions) -> AntiBotConfig {
    AntiBotConfig {
        user_agent: if opts.user_agent is Some { opts.user_agent } else { cfg.user_agent },
        cookie_file: if opts.cookies is Some { opts.cookies } else { cfg.cookie_file },
        proxy: if opts.proxy is Some { opts.proxy } else { cfg.proxy },
        ..cfg
    }
}

/// The tool set up with the command line's User-Agent, cookie file and
/// proxy, where given.
pub fn configured_ytdlp(ytdlp: YtDlp, opts: &DownloadOptions) -> (r: YtDlp)
    ensures
        r.executable == ytdlp.executable,
        r.anti_bot == configured_anti_bot(ytdlp.anti_bot, *opts),
{
    let mut yt = ytdlp;
    match &opts.user_agent {
        Some(ua) => {
            yt = yt.with_user_agent(ua.clone());
        },
        None => {},
    }
    match &opts.cookies {
        Some(c) => {
            yt = yt.with_cookie_file(c.clone());
        },
        None => {},
    }
    match &opts.proxy {
        Some(p) => {
            yt = yt.with_proxy(p.clone());
        },
        None => {},
    }
    yt
}

/// The format asked of yt-dlp: the one on the command line; else
/// `bestaudio` for audio only, `best` for a direct `video.twimg.com` link,
/// and otherwise none (yt-dlp's default selection).
pub open spec fn ytdlp_format_spec(opts: DownloadOptions, info_url: Seq<char>) -> Option<Seq<char>> {
    match opts.format {
        Some(f) => Some(f@),
        None => if opts.audio_only {
            Some("bestaudio"@)
        } else if crate::text::contains_spec(info_url, "video.twimg.com"@) {
            Some("best"@)
        } else {
            None
        },
    }
}

/// The format asked of yt-dlp (see `ytdlp_format_spec`).
pub fn ytdlp_format(opts: &DownloadOptions, info_url: &str) -> (r: Option<String>)
    ensures
        match r {
            Some(s) => ytdlp_format_spec(*opts, info_url@) == Some(s@),
            None => ytdlp_format_spec(*opts, info_url@) is None,
        },
{
    match &opts.format {
        Some(f) => Some(f.clone()),
        None => if opts.audio_only {
            Some(string_of(chars_of("bestaudio").as_slice()))
        } else if crate::text::contains(chars_of(info_url).as_slice(), chars_of("video.twimg.com").as_slice()) {
            Some(string_of(chars_of("best").as_slice()))
        } else {
            None
        },
    }
}

/// The file name of a download: the command line's name, else the video's
/// title, made safe.
pub open spec fn download_name_spec(opts: DownloadOptions, title: Seq<char>) -> Seq<char> {
    sanitize_filename_spec(
        match opts.filename {
            Some(n) => n@,
            None => title,
        },
    )
}

/// The arguments of a yt-dlp download of `info` into `output_dir`: the
/// configured tool's download arguments for the output template
/// `{name}.%(ext)s`, the chosen format, and the audio and subtitle options.
pub open spec fn ytdlp_job_args(
    args: Seq<Seq<char>>,
    cfg: AntiBotConfig,
    info: VideoInfo,
    opts: DownloadOptions,
    output_dir: Seq<char>,
) -> bool {
    let c = configured_anti_bot(cfg, opts);
    exists|ua: Seq<char>, cookie_exists: bool| {
        &&& match c.user_agent {
            Some(u) => ua == u@,
            None => exists|i: int| 0 <= i < USER_AGENT_COUNT && ua == builtin_user_agent(i),
        }
        &&& args == download_args_spec(
            c,
            info.url@,
            path_joined(output_dir, download_name_spec(opts, info.title@) + ".%(ext)s"@),
            ytdlp_format_spec(opts, info.url@),
            opts.audio_only,
            opts.subtitles,
            ua,
            cookie_exists,
        )
    }
}

/// The tool and arguments of a yt-dlp download (see `ytdlp_job_args`).
pub fn ytdlp_job(ytdlp: YtDlp, info: &VideoInfo, opts: &DownloadOptions, output_dir: &str) -> (r: (YtDlp, Vec<String>))
    ensures
        r.0.executable == ytdlp.executable,
        r.0.anti_bot == configured_anti_bot(ytdlp.anti_bot, *opts),
        ytdlp_job_args(texts(r.1@), ytdlp.anti_bot, *info, *opts, output_dir@),
{
    let name_source = match &opts.filename {
        Some(n) => n.as_str(),
        None => info.title.as_str(),
    };
    let mut name = chars_of(sanitize_filename(name_source).as_str());
    append(&mut name, chars_of(".%(ext)s").as_slice());
    let name_text = string_of(name.as_slice());
    let output_path = join_path(output_dir, name_text.as_str());
    let format = ytdlp_format(opts, info.url.as_str());
    let yt = configured_ytdlp(ytdlp, opts);
    let fopt: Option<&str> = match &format {
        Some(f) => Some(f.as_str()),
        None => None,
    };
    let args = yt.build_download_args(info.url.as_str(), output_path.as_str(), fopt, opts.audio_only, opts.subtitles);
    proof {
        assert(opt_view(fopt) == ytdlp_format_spec(*opts, info.url@));
        assert(output_path@ == path_joined(output_dir@, download_name_spec(*opts, info.title@) + ".%(ext)s"@));
        let (ua, ce) = choose|ua: Seq<char>, ce: bool|
            texts(args@) == #[trigger] download_args_spec(
                yt.anti_bot,
                info.url@,
                output_path@,
                opt_view(fopt),
                opts.audio_only,
                opts.subtitles,
                ua,
                ce,
            ) && match yt.anti_bot.user_agent {
                Some(u) => ua == u@,
                None => exists|i: int| 0 <= i < USER_AGENT_COUNT && ua == builtin_user_agent(i),
            };
        assert(ytdlp_job_args(texts(args@), ytdlp.anti_bot, *info, *opts, output_dir@));
    }
    (yt, args)
}

/// The request of a direct download of `url` into `output_dir`: the file is
/// named by the command line (made safe) or `video.mp4`, and sent with the
/// command line's User-Agent or the default one.
pub fn direct_download_request(url: &str, output_dir: &str, opts: &DownloadOptions) -> (r: DownloadRequest)
    ensures
        r.url@ == url@,
        r.output_path@ == path_joined(
            output_dir@,
            match opts.filename {
                Some(n) => sanitize_filename_spec(n@),
                None => "video.mp4"@,
            },
        ),
        r.user_agent matches Some(ua) && ua@ == (match opts.user_agent {
            Some(u) => u@,
            None => DEFAULT_USER_AGENT@,
        }),
        r.format_id is None,
        !r.audio_only,
        !r.download_subtitles,
        r.cookie_file is None,
{
    let filename = match &opts.filename {
        Some(n) => sanitize_filename(n.as_str()),
        None => string_of(chars_of("video.mp4").as_slice()),
    };
    let output_path = join_path(output_dir, filename.as_str());
    let ua = match &opts.user_agent {
        Some(u) => u.clone(),
        None => string_of(chars_of(DEFAULT_USER_AGENT).as_slice()),
    };
    DownloadRequest::new(url, output_path.as_str()).with_user_agent(ua)
}

// ---------------------------------------------------------------------------
// Printed lines
// ---------------------------------------------------------------------------

/// `s` padded with spaces to `width` characters (`{:<width}`).
pub open spec fn pad_right_spec(s: Seq<char>, width: nat) -> Seq<char> {
    if s.len() >= width {
        s
    } else {
        s + Seq::new((width - s.len()) as nat, |i: int| ' ')
    }
}

/// Pads `s` with spaces to `width` characters.
pub fn pad_right(s: &[char], width: usize) -> (r: Vec<char>)
    ensures
        r@ == pad_right_spec(s@, width as nat),
{
    let mut out = crate::text::slice_chars(s, 0, s.len());
    assert(out@ =~= s@);
    while out.len() < width
        invariant
            s@.len() <= out@.len() <= width || out@.len() == s@.len(),
            out@.subrange(0, s@.len() as int) == s@,
            forall|i: int| s@.len() <= i < out@.len() ==> out@[i] == ' ',
        decreases width - out@.len(),
    {
        out.push(' ');
    }
    proof {
        if s@.len() < width {
            assert(out@ =~= pad_right_spec(s@, width as nat));
        } else {
            assert(out@ =~= s@);
        }
    }
    out
}

/// A row of the format table: id, extension, resolution and size in
/// columns of 10, 8, 15 and 12 characters.
pub open spec fn format_row_spec(id: Seq<char>, ext: Seq<char>, resolution: Seq<char>, size: Seq<char>) -> Seq<char> {
    pad_right_spec(id, 10) + " "@ + pad_right_spec(ext, 8) + " "@ + pad_right_spec(resolution, 15)
        + " "@ + pad_right_spec(size, 12)
}

/// A row of the format table.
pub fn format_row(id: &str, ext: &str, resolution: &str, size: &str) -> (r: String)
    ensures
        r@ == format_row_spec(id@, ext@, resolution@, size@),
{
    let mut out = pad_right(chars_of(id).as_slice(), 10);
    out.push(' ');
    append(&mut out, pad_right(chars_of(ext).as_slice(), 8).as_slice());
    out.push(' ');
    append(&mut out, pad_right(chars_of(resolution).as_slice(), 15).as_slice());
    out.push(' ');
    append(&mut out, pad_right(chars_of(size).as_slice(), 12).as_slice());
    proof {
        reveal_strlit(" ");
        assert(out@ =~= format_row_spec(id@, ext@, resolution@, size@));
    }
    string_of(out.as_slice())
}

/// The size column: the formatted size, or `N/A` where unknown.
pub fn size_label(size: Option<u64>) -> (r: String)
    ensures
        r@ == (match size {
            Some(s) => format_bytes_spec(s),
            None => "N/A"@,
        }),
{
    match size {
        Some(s) => format_bytes(s),
        None => string_of(chars_of("N/A").as_slice()),
    }
}

/// How an entry is named in listings: its title, else its URL.
pub fn entry_label(title: &Option<String>, url: &str) -> (r: String)
    ensures
        r@ == (match *title {
            Some(t) => t@,
            None => url@,
        }),
{
    match title {
        Some(t) => t.clone(),
        None => string_of(chars_of(url).as_slice()),
    }
}

} // verus!
